//! The engine: handlers by operation, open dialogues, and their timers.
use crate::config::Tcap;
use crate::content::view::text_of;
use crate::dialogue::handle::{
    abort_now, abort_units, outgoing_models, reversed, units, wrap_msu, wrapped, Addressing,
    AddressingModel, Dialogue, DialogueModel, Role, Tid,
};
use crate::dialogue::turn::{
    as_invoke, first_operation, peer_turn, turn_of, IncomingOp, OpModel, PeerTurn,
};
use crate::metrics::{
    abort, abort_source_slot, count_at, dialogue_closed, dialogue_opened, dialogue_timeout,
    invoke_timeout, next, AbortSource, Metrics,
};
use crate::sccp::message::{sccp_decoded, MessageModel, PartyAddress, SccpForm, SccpHead, Unitdata};
use crate::sorted_map::{Key, SortedMap};
use crate::transaction::{
    component_models, octets, tcap_decode, tcap_decoded, AbortBy, ContextModel, Outgoing,
    OutgoingModel, TcComponent, TcContext, TcKind, TcMessage, TcModel,
};
use crate::transport::framing::SI_SCCP;
use crate::transport::msu::{copy_octets, Msu, MsuModel};
use vstd::prelude::*;
use vstd::string::*;

verus! {

/// A termination host: registered for a subsystem and operation, it drives a
/// dialogue through its handle.
pub trait TerminationHandler: Send + Sync {
    /// A peer opened a dialogue with this operation. Answer it, or hold it open. A
    /// handler that does neither, as the default, has the dialogue aborted.
    fn on_begin(&self, dialogue: &mut Dialogue, op: &IncomingOp)
        default_ensures
            *final(dialogue) == *old(dialogue),
    {
    }

    /// We open a dialogue: stage and send its opening. The default stages nothing.
    fn on_start(&self, dialogue: &mut Dialogue)
        default_ensures
            *final(dialogue) == *old(dialogue),
    {
    }

    /// The peer continued an open dialogue with these components. The default does
    /// nothing.
    fn on_continue(&self, dialogue: &mut Dialogue, peer: &PeerTurn)
        default_ensures
            *final(dialogue) == *old(dialogue),
    {
    }
}

/// The opening of a dialogue of ours.
pub struct OutgoingBegin {
    /// The application context.
    pub application_context: Vec<u32>,
    /// The called party.
    pub called: PartyAddress,
    /// The calling party.
    pub calling: PartyAddress,
    /// Our point code.
    pub opc: u32,
    /// The peer's point code.
    pub dpc: u32,
    /// The network indicator.
    pub ni: u8,
    /// The link selection.
    pub sls: u8,
    /// The association responses come back on.
    pub ingress_assoc: String,
}

impl OutgoingBegin {
    /// Where the dialogue's messages go.
    pub open spec fn addressing(self) -> AddressingModel {
        AddressingModel {
            out_called: self.called@,
            out_calling: self.calling@,
            opc: self.opc,
            dpc: self.dpc,
            ni: self.ni,
            sls: self.sls,
        }
    }
}

// ── Transaction ids ─────────────────────────────────────────────────────────

/// The four octets of a number, most significant first.
pub open spec fn id_octets(n: u32) -> Seq<u8> {
    seq![
        (n / 0x100_0000) as u8,
        (n / 0x1_0000 % 0x100) as u8,
        (n / 0x100 % 0x100) as u8,
        (n % 0x100) as u8,
    ]
}

/// The number of an id of four octets. Ours all have four; no other id is one of
/// ours.
pub open spec fn id_number(b: Seq<u8>) -> Option<u32> {
    if b.len() == 4 {
        Some((b[0] * 0x100_0000 + b[1] * 0x1_0000 + b[2] * 0x100 + b[3]) as u32)
    } else {
        None
    }
}

fn octets_of_id(n: u32) -> (r: Vec<u8>)
    ensures
        r@ == id_octets(n),
{
    let mut v: Vec<u8> = Vec::new();
    v.push((n / 0x100_0000) as u8);
    v.push((n / 0x1_0000 % 0x100) as u8);
    v.push((n / 0x100 % 0x100) as u8);
    v.push((n % 0x100) as u8);
    proof {
        assert(v@ =~= id_octets(n));
    }
    v
}

fn number_of_id(b: &Vec<u8>) -> (r: Option<u32>)
    ensures
        r == id_number(b@),
{
    if b.len() == 4 {
        let n: u32 = b[0] as u32 * 0x100_0000 + b[1] as u32 * 0x1_0000 + b[2] as u32 * 0x100
            + b[3] as u32;
        Some(n)
    } else {
        None
    }
}

/// An id of ours is found again from its octets.
pub proof fn law_id_round_trip(n: u32)
    ensures
        id_number(id_octets(n)) == Some(n),
{
    let x = n as int;
    vstd::arithmetic::div_mod::lemma_div_denominator(x, 0x100, 0x100);
    vstd::arithmetic::div_mod::lemma_div_denominator(x, 0x1_0000, 0x100);
    vstd::arithmetic::div_mod::lemma_fundamental_div_mod(x, 0x100);
    vstd::arithmetic::div_mod::lemma_fundamental_div_mod(x / 0x100, 0x100);
    vstd::arithmetic::div_mod::lemma_fundamental_div_mod(x / 0x1_0000, 0x100);
    let b = id_octets(n);
    assert(b[0] == x / 0x100_0000);
    assert(b[1] == x / 0x1_0000 % 0x100);
    assert(b[2] == x / 0x100 % 0x100);
    assert(b[3] == x % 0x100);
}

/// The counter after another allocation. It wraps around at the end of its range.
pub open spec fn counted_up(c: u32) -> u32 {
    if c == u32::MAX {
        0
    } else {
        (c + 1) as u32
    }
}

/// The id for a counter value: its highest bit is set, which marks it as ours.
pub open spec fn marked(c: u32) -> u32 {
    if c < 0x8000_0000 {
        (c + 0x8000_0000) as u32
    } else {
        c
    }
}

// ── Records ─────────────────────────────────────────────────────────────────

/// Who handles a dialogue: a registered handler, or its own.
pub enum HandledBy<H> {
    Registered(usize),
    Own(H),
}

/// What is kept of a dialogue between its legs.
pub struct Record<H> {
    pub handler: HandledBy<H>,
    pub role: Role,
    pub our_tid: Tid,
    pub peer_tid: Tid,
    pub ac: Vec<u32>,
    pub addressing: Addressing,
    pub reply_invoke_id: i64,
    pub next_invoke_id: i64,
    pub ingress_assoc: String,
    /// When the last leg was, in milliseconds.
    pub last_activity: u64,
    /// The operation of an invoke of ours that awaits its result, and when it was
    /// asked.
    pub awaited: Option<(i64, u64)>,
}

/// What a [`Record`] holds but for its handler.
pub struct RecordModel {
    pub role: Role,
    pub our_tid: Seq<u8>,
    pub peer_tid: Seq<u8>,
    pub ac: Seq<u32>,
    pub addressing: AddressingModel,
    pub reply_invoke_id: i64,
    pub next_invoke_id: i64,
    pub ingress_assoc: Seq<char>,
    pub last_activity: u64,
    pub awaited: Option<(i64, u64)>,
}

impl<H> View for Record<H> {
    type V = RecordModel;

    open spec fn view(&self) -> RecordModel {
        RecordModel {
            role: self.role,
            our_tid: self.our_tid@,
            peer_tid: self.peer_tid@,
            ac: self.ac@,
            addressing: self.addressing@,
            reply_invoke_id: self.reply_invoke_id,
            next_invoke_id: self.next_invoke_id,
            ingress_assoc: self.ingress_assoc@,
            last_activity: self.last_activity,
            awaited: self.awaited,
        }
    }
}

/// What is kept of an open dialogue after a leg. An invoke of this leg awaits its
/// result from now on; without one, an invoke of an earlier leg that is not
/// answered goes on waiting.
pub open spec fn kept(d: DialogueModel, ingress: Seq<char>, now: u64) -> RecordModel {
    RecordModel {
        role: d.role,
        our_tid: d.our_tid,
        peer_tid: d.peer_tid,
        ac: d.ac,
        addressing: d.addressing,
        reply_invoke_id: d.reply_invoke_id,
        next_invoke_id: d.next_invoke_id,
        ingress_assoc: ingress,
        last_activity: now,
        awaited: match d.awaiting_op {
            Some(op) => Some((op, now)),
            None => d.outstanding,
        },
    }
}

/// The handle for a follow-up leg, once the peer's transaction id is known: an
/// initiator learns it from the first Continue. An invoke is outstanding no longer
/// once the peer answers.
pub open spec fn resumed(r: RecordModel, otid: Option<Seq<u8>>, answered: bool) -> DialogueModel {
    DialogueModel {
        role: r.role,
        our_tid: r.our_tid,
        peer_tid: if r.peer_tid.len() == 0 && otid is Some {
            otid->Some_0
        } else {
            r.peer_tid
        },
        ac: r.ac,
        reply_invoke_id: r.reply_invoke_id,
        next_invoke_id: r.next_invoke_id,
        first_flush_done: true,
        aare_pending: false,
        closed: false,
        awaiting_op: None,
        outstanding: if answered {
            None
        } else {
            r.awaited
        },
        addressing: r.addressing,
        pending: Seq::empty(),
        out: Seq::empty(),
    }
}

/// An invoke of ours was not answered in time.
pub open spec fn invoke_expired(r: RecordModel, config: Tcap, now: u64) -> bool {
    r.awaited matches Some(a) && now >= a.1 + config.invoke_timer_ms
}

/// The dialogue sat idle for too long.
pub open spec fn idle_expired(r: RecordModel, config: Tcap, now: u64) -> bool {
    (if now >= r.last_activity {
        now - r.last_activity
    } else {
        0
    }) >= config.dialogue_timer_ms
}

/// The dialogue is to be aged out.
pub open spec fn is_expired(r: RecordModel, config: Tcap, now: u64) -> bool {
    invoke_expired(r, config, now) || idle_expired(r, config, now)
}

/// The units of the first `n` messages that encode.
pub open spec fn framed_out(out: Seq<OutgoingModel>, a: AddressingModel, n: int) -> Seq<MsuModel>
    decreases n,
{
    if n <= 0 {
        Seq::empty()
    } else {
        let before = framed_out(out, a, n - 1);
        match wrapped(out[n - 1], a) {
            Some(m) => before.push(m),
            None => before,
        }
    }
}

/// The units of a dialogue's messages.
pub open spec fn frames_of(d: DialogueModel, a: AddressingModel) -> Seq<MsuModel> {
    framed_out(d.out, a, d.out.len() as int)
}

/// The units of a dialogue's messages.
pub fn frames(d: &Dialogue, a: &Addressing) -> (r: Vec<Msu>)
    ensures
        units(r@) == frames_of(d@, a@),
{
    let ghost model = d@.out;
    let mut out: Vec<Msu> = Vec::new();
    let mut i: usize = 0;
    proof {
        assert(units(out@) =~= framed_out(model, a@, 0));
    }
    while i < d.out.len()
        invariant
            i <= d.out@.len(),
            model == outgoing_models(d.out@),
            units(out@) == framed_out(model, a@, i as int),
        decreases d.out.len() - i,
    {
        proof {
            assert(model[i as int] == d.out@[i as int]@);
        }
        let ghost before = out@;
        match wrap_msu(copy_outgoing(&d.out[i]), a) {
            Some(m) => {
                out.push(m);
                proof {
                    assert(units(out@) =~= units(before).push(m@));
                }
            },
            None => {},
        }
        i += 1;
    }
    out
}

fn copy_outgoing(m: &Outgoing) -> (r: Outgoing)
    ensures
        r@ == m@,
{
    match m {
        Outgoing::Begin { otid, context, components } => Outgoing::Begin {
            otid: copy_octets(otid),
            context: crate::dialogue::handle::copy_context(context),
            components: crate::dialogue::handle::copy_staged(components),
        },
        Outgoing::Continue { otid, dtid, context, components } => Outgoing::Continue {
            otid: copy_octets(otid),
            dtid: copy_octets(dtid),
            context: crate::dialogue::handle::copy_context(context),
            components: crate::dialogue::handle::copy_staged(components),
        },
        Outgoing::End { dtid, context, components } => Outgoing::End {
            dtid: copy_octets(dtid),
            context: crate::dialogue::handle::copy_context(context),
            components: crate::dialogue::handle::copy_staged(components),
        },
        Outgoing::Abort { dtid, by } => Outgoing::Abort { dtid: copy_octets(dtid), by: *by },
    }
}

// ── The engine ──────────────────────────────────────────────────────────────

/// The records by transaction id.
pub type Records = Map<u32, RecordModel>;

/// Handler indices by subsystem and operation.
pub type Registrations = Map<(u32, i64), usize>;

/// The handler of an operation on a subsystem: one registered for it, else its
/// fallback.
pub open spec fn handler_for(
    handlers: Registrations,
    fallbacks: Registrations,
    ssn: u8,
    op: i64,
) -> Option<usize> {
    let k = (ssn as u32, op);
    if handlers.contains_key(k) {
        Some(handlers[k])
    } else if fallbacks.contains_key(k) {
        Some(fallbacks[k])
    } else {
        None
    }
}

/// The handlers and the open dialogues.
pub struct DialogueEngine<H> {
    config: Tcap,
    hosts: Vec<H>,
    handlers: SortedMap<(u32, i64), usize>,
    fallbacks: SortedMap<(u32, i64), usize>,
    dialogues: SortedMap<u32, Record<H>>,
    tid_counter: u32,
}

/// How a Begin is answered before its handler is asked.
pub enum Opening {
    /// It is refused with these units.
    Refused(Vec<Msu>),
    /// This handler is to drive this dialogue on this operation.
    Opened { handler: usize, dialogue: Dialogue, op: IncomingOp },
}

/// A dialogue taken up again on a peer's follow-up.
pub struct Resumed<H> {
    pub handler: HandledBy<H>,
    pub dialogue: Dialogue,
    pub peer: PeerTurn,
    pub ingress_assoc: String,
}

/// The subsystem a message is addressed to, 0 if it names none.
pub open spec fn called_ssn(m: MessageModel) -> u8 {
    match m.called_party.ssn {
        Some(s) => s,
        None => 0,
    }
}

/// The context of a dialogue request.
pub open spec fn requested(c: ContextModel) -> Option<Seq<u32>> {
    match c {
        ContextModel::Request(a) => Some(a),
        _ => None,
    }
}

/// The operation that an accepted Begin asks for, as its handler gets it.
pub open spec fn opening_op(t: TcModel, udt: MessageModel) -> OpModel {
    let first = first_operation(t.components, 0)->Some_0;
    OpModel {
        operation_code: first.1,
        invoke_id: first.0,
        argument: first.2,
        application_context: requested(t.context),
        called_ssn: called_ssn(udt),
        calling_gt: udt.calling_party.global_title.digits(),
        called_gt: udt.called_party.global_title.digits(),
    }
}

/// The handlers of the open dialogues with one kept after a leg, if it is still
/// open.
pub open spec fn driven_in<H>(
    ds: Map<u32, HandledBy<H>>,
    d: DialogueModel,
    h: HandledBy<H>,
) -> Map<u32, HandledBy<H>> {
    if stays_open(d) {
        ds.insert(id_number(d.our_tid)->Some_0, h)
    } else {
        ds
    }
}

/// The handlers of the open dialogues once a leg ended: a dialogue that goes on
/// keeps its handler, and one that its handler left without a word is gone.
pub open spec fn driven_on<H>(
    ds: Map<u32, HandledBy<H>>,
    d: DialogueModel,
    h: HandledBy<H>,
) -> Map<u32, HandledBy<H>> {
    if d.out.len() == 0 && !d.closed {
        ds
    } else {
        driven_in(ds, d, h)
    }
}

/// Only the aborts from `source` were counted, once.
pub open spec fn abort_counted(before: Metrics, after: Metrics, source: AbortSource) -> bool {
    &&& after.abort_counts@ == before.abort_counts@.update(
        abort_source_slot(source),
        next(before.abort_counts@[abort_source_slot(source)]),
    )
    &&& after == (Metrics { abort_counts: after.abort_counts, ..before })
}

/// The gauge of open dialogues after one more.
pub open spec fn gauge_up(g: i64) -> i64 {
    if g == i64::MAX {
        i64::MIN
    } else {
        (g + 1) as i64
    }
}

/// The gauge of open dialogues after one less.
pub open spec fn gauge_down(g: i64) -> i64 {
    if g == i64::MIN {
        i64::MAX
    } else {
        (g - 1) as i64
    }
}

impl<H> DialogueEngine<H> {
    /// The settings.
    pub closed spec fn settings(&self) -> Tcap {
        self.config
    }

    /// The number of handlers.
    pub closed spec fn host_count(&self) -> nat {
        self.hosts@.len()
    }

    /// The handler with an index.
    pub closed spec fn host(&self, i: int) -> H {
        self.hosts@[i]
    }

    /// The handlers registered for an operation.
    pub closed spec fn registered(&self) -> Registrations {
        self.handlers@
    }

    /// The fallback handlers.
    pub closed spec fn fallback(&self) -> Registrations {
        self.fallbacks@
    }

    /// The open dialogues.
    pub closed spec fn records(&self) -> Records {
        Map::new(|k: u32| self.dialogues@.contains_key(k), |k: u32| self.dialogues@[k]@)
    }

    /// Who handles each open dialogue.
    pub closed spec fn drivers(&self) -> Map<u32, HandledBy<H>> {
        Map::new(|k: u32| self.dialogues@.contains_key(k), |k: u32| self.dialogues@[k].handler)
    }

    /// Who handles the open dialogue with an id.
    pub open spec fn handler_of(&self, id: u32) -> HandledBy<H> {
        self.drivers()[id]
    }

    /// The handler itself: a registered one, or the dialogue's own.
    pub open spec fn host_of(&self, h: HandledBy<H>) -> H {
        match h {
            HandledBy::Registered(i) => self.host(i as int),
            HandledBy::Own(own) => own,
        }
    }

    /// Every open dialogue has a handler.
    pub proof fn lemma_drivers(&self)
        ensures
            self.drivers().dom() =~= self.records().dom(),
    {
    }

    /// The number of open dialogues.
    pub open spec fn size(&self) -> nat {
        self.records().dom().len()
    }

    /// The counter of transaction ids.
    pub closed spec fn counter(&self) -> u32 {
        self.tid_counter
    }

    /// The ids of the open dialogues, in increasing order.
    pub closed spec fn tids(&self) -> Seq<u32> {
        self.dialogues.keys()
    }

    /// Every open dialogue is listed, once.
    pub proof fn lemma_tids(&self)
        requires
            self.wf(),
        ensures
            self.records().dom().finite(),
            self.tids().len() == self.size(),
            forall|i: int, j: int|
                0 <= i < j < self.tids().len() ==> #[trigger] self.tids()[i] < #[trigger] self.tids()[j],
            forall|k: u32| #[trigger] self.tids().contains(k) == self.records().contains_key(k),
    {
        let t = self.tids();
        self.lemma_count();
        assert forall|k: u32| #[trigger] t.contains(k) == self.records().contains_key(k) by {
            if self.dialogues.has(k) {
                assert(t[self.dialogues.place(k)] == k);
            }
            if t.contains(k) {
                let i = choose|i: int| 0 <= i < t.len() && t[i] == k;
                assert(self.dialogues.key_at(i) == k);
            }
        }
    }

    proof fn lemma_count(&self)
        requires
            self.dialogues.wf(),
        ensures
            self.size() == self.dialogues.size(),
            self.records().dom().finite(),
    {
        self.dialogues.lemma_size();
        assert(self.records().dom() =~= self.dialogues@.dom());
    }

    /// The tables are in order, and every registration and record refers to a
    /// handler that is there.
    pub closed spec fn wf(&self) -> bool {
        &&& self.handlers.wf()
        &&& self.fallbacks.wf()
        &&& self.dialogues.wf()
        &&& forall|k: (u32, i64)| #[trigger]
            self.handlers@.contains_key(k) ==> self.handlers@[k] < self.hosts@.len()
        &&& forall|k: (u32, i64)| #[trigger]
            self.fallbacks@.contains_key(k) ==> self.fallbacks@[k] < self.hosts@.len()
        &&& forall|k: u32| #[trigger]
            self.dialogues@.contains_key(k) ==> self.handled(self.dialogues@[k].handler)
    }

    /// The handler is there.
    pub closed spec fn handled(&self, h: HandledBy<H>) -> bool {
        h matches HandledBy::Registered(i) ==> i < self.hosts@.len()
    }

    /// Nothing but the open dialogues and the counter of ids differs.
    pub open spec fn same_setup(&self, other: &Self) -> bool {
        &&& self.settings() == other.settings()
        &&& self.host_count() == other.host_count()
        &&& forall|i: int| 0 <= i < self.host_count() ==> #[trigger] self.host(i) == other.host(i)
        &&& self.registered() == other.registered()
        &&& self.fallback() == other.fallback()
    }

    /// An engine with these settings, no handler and no dialogue.
    pub fn new(config: Tcap) -> (r: DialogueEngine<H>)
        ensures
            r.wf(),
            r.settings() == config,
            r.host_count() == 0,
            r.registered() == Map::<(u32, i64), usize>::empty(),
            r.fallback() == Map::<(u32, i64), usize>::empty(),
            r.records() == Map::<u32, RecordModel>::empty(),
            r.drivers() == Map::<u32, HandledBy<H>>::empty(),
            r.counter() == 0,
    {
        let r = DialogueEngine {
            config,
            hosts: Vec::new(),
            handlers: SortedMap::new(),
            fallbacks: SortedMap::new(),
            dialogues: SortedMap::new(),
            tid_counter: 0,
        };
        proof {
            assert(r.records() =~= Map::<u32, RecordModel>::empty());
            assert(r.drivers() =~= Map::<u32, HandledBy<H>>::empty());
        }
        r
    }

    /// Registers a handler for an operation on a subsystem. A later registration
    /// for the same operation wins.
    pub fn register(&mut self, ssn: u8, operation_code: i64, handler: H)
        requires
            old(self).wf(),
        ensures
            final(self).wf(),
            final(self).settings() == old(self).settings(),
            final(self).host_count() == old(self).host_count() + 1,
            final(self).host(old(self).host_count() as int) == handler,
            forall|i: int|
                0 <= i < old(self).host_count() ==> #[trigger] final(self).host(i) == old(
                    self,
                ).host(i),
            final(self).registered() == old(self).registered().insert(
                (ssn as u32, operation_code),
                old(self).host_count() as usize,
            ),
            final(self).fallback() == old(self).fallback(),
            final(self).records() == old(self).records(),
            final(self).drivers() == old(self).drivers(),
            final(self).counter() == old(self).counter(),
    {
        let i: usize = self.hosts.len();
        self.hosts.push(handler);
        self.handlers.insert((ssn as u32, operation_code), i);
    }

    /// Registers a fallback for an operation on a subsystem: it is used where no
    /// handler is registered for the operation, whichever came first.
    pub fn register_fallback(&mut self, ssn: u8, operation_code: i64, handler: H)
        requires
            old(self).wf(),
        ensures
            final(self).wf(),
            final(self).settings() == old(self).settings(),
            final(self).host_count() == old(self).host_count() + 1,
            final(self).host(old(self).host_count() as int) == handler,
            forall|i: int|
                0 <= i < old(self).host_count() ==> #[trigger] final(self).host(i) == old(
                    self,
                ).host(i),
            final(self).fallback() == old(self).fallback().insert(
                (ssn as u32, operation_code),
                old(self).host_count() as usize,
            ),
            final(self).registered() == old(self).registered(),
            final(self).records() == old(self).records(),
            final(self).drivers() == old(self).drivers(),
            final(self).counter() == old(self).counter(),
    {
        let i: usize = self.hosts.len();
        self.hosts.push(handler);
        self.fallbacks.insert((ssn as u32, operation_code), i);
    }

    /// The number of open dialogues.
    pub fn open_dialogues(&self) -> (r: usize)
        requires
            self.wf(),
        ensures
            r == self.size(),
    {
        proof {
            self.lemma_count();
        }
        self.dialogues.len()
    }

    /// The settings.
    pub fn config(&self) -> (r: &Tcap)
        ensures
            *r == self.settings(),
    {
        &self.config
    }

    /// Allocates a transaction id of ours.
    fn alloc_tid(&mut self) -> (r: u32)
        requires
            old(self).wf(),
        ensures
            final(self).wf(),
            final(self).same_setup(old(self)),
            final(self).records() == old(self).records(),
            final(self).drivers() == old(self).drivers(),
            final(self).counter() == counted_up(old(self).counter()),
            r == marked(final(self).counter()),
    {
        let c: u32 = if self.tid_counter == u32::MAX {
            0
        } else {
            self.tid_counter + 1
        };
        self.tid_counter = c;
        if c < 0x8000_0000 {
            c + 0x8000_0000
        } else {
            c
        }
    }

    fn find_handler(&self, ssn: u8, op: i64) -> (r: Option<usize>)
        requires
            self.wf(),
        ensures
            r == handler_for(self.registered(), self.fallback(), ssn, op),
            r matches Some(i) ==> i < self.host_count(),
    {
        let k = (ssn as u32, op);
        match self.handlers.get(&k) {
            Some(i) => Some(*i),
            None => match self.fallbacks.get(&k) {
                Some(i) => Some(*i),
                None => None,
            },
        }
    }

    /// A Begin is accepted: it has an operation, a handler for it, and room.
    pub open spec fn accepts(&self, t: TcModel, udt: MessageModel) -> bool {
        match first_operation(t.components, 0) {
            Some(first) => handler_for(
                self.registered(),
                self.fallback(),
                called_ssn(udt),
                first.1,
            ) is Some && self.size() < self.settings().max_dialogues,
            None => false,
        }
    }

    /// The handler for an accepted Begin.
    pub open spec fn chosen(&self, t: TcModel, udt: MessageModel) -> usize {
        handler_for(
            self.registered(),
            self.fallback(),
            called_ssn(udt),
            first_operation(t.components, 0)->Some_0.1,
        )->Some_0
    }

    /// The dialogue that an accepted Begin opens, as its handler gets it.
    pub open spec fn opened(&self, t: TcModel, udt: MessageModel, inbound: MsuModel) -> DialogueModel {
        DialogueModel::fresh_responder(
            id_octets(marked(counted_up(self.counter()))),
            t.otid,
            match requested(t.context) {
                Some(a) => a,
                None => Seq::empty(),
            },
            first_operation(t.components, 0)->Some_0.0,
            reversed(udt, inbound),
        )
    }

    /// Takes up a Begin. Without an operation, without a handler for it, or with
    /// no room for another dialogue, it is refused with an abort; else a dialogue
    /// and its operation are handed out for the handler.
    pub fn open(&mut self, m: &mut Metrics, t: &TcMessage, udt: &Unitdata, inbound: &Msu) -> (r:
        Opening)
        requires
            old(self).wf(),
        ensures
            final(self).wf(),
            final(self).same_setup(old(self)),
            final(self).records() == old(self).records(),
            final(self).drivers() == old(self).drivers(),
            match r {
                Opening::Refused(out) => {
                    &&& !old(self).accepts(t@, udt@)
                    &&& units(out@) == abort_units(
                        reversed(udt@, inbound@),
                        t.otid@,
                        AbortBy::Provider,
                    )
                    &&& abort_counted(*old(m), *final(m), AbortSource::Local)
                    &&& final(self).counter() == old(self).counter()
                },
                Opening::Opened { handler, dialogue, op } => {
                    &&& old(self).accepts(t@, udt@)
                    &&& *final(m) == *old(m)
                    &&& handler < final(self).host_count()
                    &&& handler == old(self).chosen(t@, udt@)
                    &&& final(self).counter() == counted_up(old(self).counter())
                    &&& dialogue@ == old(self).opened(t@, udt@, inbound@)
                    &&& op@ == opening_op(t@, udt@)
                },
            },
    {
        let addressing = Addressing::reverse(udt, inbound);
        let ssn: u8 = match udt.called_party.ssn {
            Some(s) => s,
            None => 0,
        };
        let (invoke_id, op, argument) = match as_invoke(&t.components) {
            Some(first) => first,
            None => {
                abort(m, AbortSource::Local);
                return Opening::Refused(abort_now(&addressing, &t.otid, AbortBy::Provider));
            },
        };
        let handler: usize = match self.find_handler(ssn, op) {
            Some(h) => h,
            None => {
                abort(m, AbortSource::Local);
                return Opening::Refused(abort_now(&addressing, &t.otid, AbortBy::Provider));
            },
        };
        proof {
            self.lemma_count();
        }
        if self.dialogues.len() >= self.config.max_dialogues {
            abort(m, AbortSource::Local);
            return Opening::Refused(abort_now(&addressing, &t.otid, AbortBy::Provider));
        }
        let tid: u32 = self.alloc_tid();
        let (ac, application_context) = match &t.context {
            TcContext::Request(a) => (
                crate::dialogue::handle::copy_arcs(a),
                Some(crate::dialogue::handle::copy_arcs(a)),
            ),
            _ => {
                let none: Vec<u32> = Vec::new();
                proof {
                    assert(none@ =~= Seq::<u32>::empty());
                }
                (none, None)
            },
        };
        let dialogue = Dialogue::responder(
            octets_of_id(tid),
            copy_octets(&t.otid),
            ac,
            invoke_id,
            addressing,
        );
        let op = IncomingOp {
            operation_code: op,
            invoke_id,
            argument,
            application_context,
            called_ssn: ssn,
            calling_gt: gt_digits(&udt.calling_party),
            called_gt: gt_digits(&udt.called_party),
        };
        Opening::Opened { handler, dialogue, op }
    }

    /// Keeps an open dialogue for its next leg; a closed one is gone.
    fn store_if_open(
        &mut self,
        m: &mut Metrics,
        d: Dialogue,
        handler: HandledBy<H>,
        ingress_assoc: &str,
        now: u64,
    )
        requires
            old(self).wf(),
            old(self).handled(handler),
        ensures
            final(self).wf(),
            final(self).same_setup(old(self)),
            final(self).counter() == old(self).counter(),
            final(self).records() == kept_in(old(self).records(), d@, ingress_assoc@, now),
            final(self).drivers() == driven_in(old(self).drivers(), d@, handler),
            *final(m) == (Metrics {
                active: if stays_open(d@) {
                    gauge_up(old(m).active)
                } else {
                    old(m).active
                },
                ..*old(m)
            }),
    {
        let ghost driven = self.drivers();
        let ghost before = self.records();
        let ghost model = d@;
        if d.closed {
            return;
        }
        let tid: u32 = match number_of_id(&d.our_tid) {
            Some(n) => n,
            None => {
                return;
            },
        };
        let record = Record {
            handler,
            role: d.role,
            our_tid: d.our_tid,
            peer_tid: d.peer_tid,
            ac: d.ac,
            addressing: d.addressing,
            reply_invoke_id: d.reply_invoke_id,
            next_invoke_id: d.next_invoke_id,
            ingress_assoc: ingress_assoc.to_owned(),
            last_activity: now,
            awaited: match d.awaiting_op {
                Some(op) => Some((op, now)),
                None => d.outstanding,
            },
        };
        proof {
            assert(record@ == kept(model, ingress_assoc@, now));
        }
        self.dialogues.insert(tid, record);
        dialogue_opened(m);
        proof {
            assert(self.records() =~= before.insert(tid, kept(model, ingress_assoc@, now)));
            assert(self.drivers() =~= driven.insert(tid, handler));
        }
    }

    /// Ends a leg: gives the units of the dialogue's messages and keeps the
    /// dialogue if it is still open. A handler that left it open and said nothing
    /// has it aborted, so that the peer is not left hanging.
    pub fn finish_turn(
        &mut self,
        m: &mut Metrics,
        d: Dialogue,
        handler: HandledBy<H>,
        ingress_assoc: &str,
        now: u64,
    ) -> (r: Vec<Msu>)
        requires
            old(self).wf(),
            old(self).handled(handler),
        ensures
            final(self).wf(),
            final(self).same_setup(old(self)),
            final(self).counter() == old(self).counter(),
            final(self).drivers() == driven_on(old(self).drivers(), d@, handler),
            if d@.out.len() == 0 && !d@.closed {
                &&& units(r@) == abort_units(d@.addressing, d@.peer_tid, AbortBy::Provider)
                &&& abort_counted(*old(m), *final(m), AbortSource::Local)
                &&& final(self).records() == old(self).records()
            } else {
                &&& units(r@) == frames_of(d@, d@.addressing)
                &&& final(self).records() == kept_in(old(self).records(), d@, ingress_assoc@, now)
                &&& *final(m) == (Metrics {
                    active: if stays_open(d@) {
                        gauge_up(old(m).active)
                    } else {
                        old(m).active
                    },
                    ..*old(m)
                })
            },
    {
        if d.out.len() == 0 && !d.closed {
            abort(m, AbortSource::Local);
            return abort_now(&d.addressing, &d.peer_tid, AbortBy::Provider);
        }
        let out = frames(&d, &d.addressing);
        self.store_if_open(m, d, handler, ingress_assoc, now);
        out
    }

    /// Takes an open dialogue out of the store for a peer's follow-up. `None` if
    /// the transaction id names no open dialogue.
    pub fn resume(
        &mut self,
        m: &mut Metrics,
        dtid: &Vec<u8>,
        otid: Option<Vec<u8>>,
        components: &Vec<TcComponent>,
        is_end: bool,
    ) -> (r: Option<Resumed<H>>)
        requires
            old(self).wf(),
        ensures
            final(self).wf(),
            final(self).same_setup(old(self)),
            final(self).counter() == old(self).counter(),
            match r {
                Some(x) => {
                    let id = id_number(dtid@)->Some_0;
                    &&& names_open(old(self).records(), dtid@)
                    &&& final(self).records() == old(self).records().remove(id)
                    &&& final(self).drivers() == old(self).drivers().remove(id)
                    &&& final(self).handled(x.handler)
                    &&& x.handler == old(self).handler_of(id)
                    &&& x.dialogue@ == resumed(
                        old(self).records()[id],
                        octets(otid),
                        turn_of(component_models(components@), is_end).answers(),
                    )
                    &&& x.peer@ == turn_of(component_models(components@), is_end)
                    &&& x.ingress_assoc@ == old(self).records()[id].ingress_assoc
                    &&& *final(m) == (Metrics { active: gauge_down(old(m).active), ..*old(m) })
                },
                None => {
                    &&& !names_open(old(self).records(), dtid@)
                    &&& final(self).records() == old(self).records()
                    &&& final(self).drivers() == old(self).drivers()
                    &&& *final(m) == *old(m)
                },
            },
    {
        let ghost before = self.records();
        let id: u32 = match number_of_id(dtid) {
            Some(n) => n,
            None => {
                return None;
            },
        };
        let rec = match self.dialogues.take(&id) {
            Some(rec) => rec,
            None => {
                return None;
            },
        };
        proof {
            assert(self.records() =~= before.remove(id));
            assert(self.drivers() =~= old(self).drivers().remove(id));
        }
        dialogue_closed(m);
        let peer_tid = match otid {
            Some(t) => {
                if rec.peer_tid.len() == 0 {
                    t
                } else {
                    rec.peer_tid
                }
            },
            None => rec.peer_tid,
        };
        let peer = peer_turn(components, is_end);
        let dialogue = Dialogue {
            role: rec.role,
            our_tid: rec.our_tid,
            peer_tid,
            ac: rec.ac,
            reply_invoke_id: rec.reply_invoke_id,
            next_invoke_id: rec.next_invoke_id,
            first_flush_done: true,
            aare_pending: false,
            closed: false,
            awaiting_op: None,
            outstanding: if peer.answers() {
                None
            } else {
                rec.awaited
            },
            addressing: rec.addressing,
            pending: Vec::new(),
            out: Vec::new(),
        };
        proof {
            assert(dialogue@.pending =~= Seq::empty());
            assert(dialogue@.out =~= Seq::empty());
        }
        Some(
            Resumed {
                handler: rec.handler,
                dialogue,
                peer,
                ingress_assoc: rec.ingress_assoc,
            },
        )
    }

    /// Forgets a dialogue that its peer aborted.
    pub fn close(&mut self, m: &mut Metrics, dtid: &Vec<u8>)
        requires
            old(self).wf(),
        ensures
            final(self).wf(),
            final(self).same_setup(old(self)),
            final(self).counter() == old(self).counter(),
            final(self).records() == if names_open(old(self).records(), dtid@) {
                old(self).records().remove(id_number(dtid@)->Some_0)
            } else {
                old(self).records()
            },
            final(self).drivers() == if names_open(old(self).records(), dtid@) {
                old(self).drivers().remove(id_number(dtid@)->Some_0)
            } else {
                old(self).drivers()
            },
            *final(m) == (Metrics {
                active: if names_open(old(self).records(), dtid@) {
                    gauge_down(old(m).active)
                } else {
                    old(m).active
                },
                ..*old(m)
            }),
    {
        let ghost before = self.records();
        match number_of_id(dtid) {
            Some(id) => {
                match self.dialogues.take(&id) {
                    Some(_) => {
                        dialogue_closed(m);
                        proof {
                            assert(self.records() =~= before.remove(id));
                            assert(self.drivers() =~= old(self).drivers().remove(id));
                        }
                    },
                    None => {},
                }
            },
            None => {},
        }
    }

    /// Starts a dialogue of ours: the handle for the handler to stage its opening.
    pub fn start(&mut self, req: &OutgoingBegin) -> (r: Dialogue)
        requires
            old(self).wf(),
        ensures
            final(self).wf(),
            final(self).same_setup(old(self)),
            final(self).records() == old(self).records(),
            final(self).drivers() == old(self).drivers(),
            final(self).counter() == counted_up(old(self).counter()),
            r@ == DialogueModel::fresh_initiator(
                id_octets(marked(final(self).counter())),
                req.application_context@,
                req.addressing(),
            ),
    {
        let tid: u32 = self.alloc_tid();
        let addressing = Addressing {
            out_called: req.called.copy(),
            out_calling: req.calling.copy(),
            opc: req.opc,
            dpc: req.dpc,
            ni: req.ni,
            sls: req.sls,
        };
        Dialogue::initiator(
            octets_of_id(tid),
            crate::dialogue::handle::copy_arcs(&req.application_context),
            addressing,
        )
    }

    /// Ends the opening leg of a dialogue of ours: gives the units of its messages,
    /// and keeps the dialogue if it is still open.
    pub fn finish_start(
        &mut self,
        m: &mut Metrics,
        d: Dialogue,
        addressing: &Addressing,
        handler: H,
        ingress_assoc: &str,
        now: u64,
    ) -> (r: Vec<Msu>)
        requires
            old(self).wf(),
        ensures
            final(self).wf(),
            final(self).same_setup(old(self)),
            final(self).counter() == old(self).counter(),
            units(r@) == frames_of(d@, addressing@),
            final(self).drivers() == driven_in(old(self).drivers(), d@, HandledBy::Own(handler)),
            final(self).records() == kept_in(old(self).records(), d@, ingress_assoc@, now),
            *final(m) == (Metrics {
                active: if stays_open(d@) {
                    gauge_up(old(m).active)
                } else {
                    old(m).active
                },
                ..*old(m)
            }),
    {
        let out = frames(&d, addressing);
        self.store_if_open(m, d, HandledBy::Own(handler), ingress_assoc, now);
        out
    }
}

// ── Arrivals ────────────────────────────────────────────────────────────────

/// The transaction in an arriving unit, with the message that carries it: a
/// short-form SCCP data message around TCAP.
pub open spec fn arriving(inbound: MsuModel) -> Option<(MessageModel, TcModel)> {
    if inbound.si != SI_SCCP {
        None
    } else {
        match sccp_decoded(inbound.payload) {
            Ok(u) => if u.form == SccpForm::Short && u.head is Data {
                match tcap_decoded(u.data) {
                    Ok(t) => Some((u, t)),
                    Err(_) => None,
                }
            } else {
                None
            },
            Err(_) => None,
        }
    }
}

/// What a leg comes to once its handler left the dialogue as `d`.
pub open spec fn turn_finished(
    rs: Records,
    m: Metrics,
    d: DialogueModel,
    ingress: Seq<char>,
    now: u64,
    out: Seq<MsuModel>,
    after: Records,
    m_after: Metrics,
) -> bool {
    if d.out.len() == 0 && !d.closed {
        &&& out == abort_units(d.addressing, d.peer_tid, AbortBy::Provider)
        &&& abort_counted(m, m_after, AbortSource::Local)
        &&& after == rs
    } else {
        &&& out == frames_of(d, d.addressing)
        &&& after == kept_in(rs, d, ingress, now)
        &&& m_after == (Metrics {
            active: if stays_open(d) {
                gauge_up(m.active)
            } else {
                m.active
            },
            ..m
        })
    }
}

/// What a follow-up of the peer comes to.
pub open spec fn followed_up(
    rs: Records,
    m: Metrics,
    dtid: Seq<u8>,
    is_end: bool,
    now: u64,
    out: Seq<MsuModel>,
    after: Records,
    m_after: Metrics,
) -> bool {
    if names_open(rs, dtid) {
        let id = id_number(dtid)->Some_0;
        let rest = rs.remove(id);
        let m_rest = Metrics { active: gauge_down(m.active), ..m };
        if is_end {
            &&& exists|d: DialogueModel| out == #[trigger] frames_of(d, rs[id].addressing)
            &&& after == rest
            &&& m_after == m_rest
        } else {
            exists|d: DialogueModel| #[trigger]
                turn_finished(rest, m_rest, d, rs[id].ingress_assoc, now, out, after, m_after)
        }
    } else {
        &&& out.len() == 0
        &&& after == rs
        &&& m_after == m
    }
}

/// The records and the aborts counted once a peer aborted.
pub open spec fn aborted_by_peer(
    rs: Records,
    m: Metrics,
    dtid: Seq<u8>,
    after: Records,
    m_after: Metrics,
) -> bool {
    if names_open(rs, dtid) {
        &&& after == rs.remove(id_number(dtid)->Some_0)
        &&& abort_counted(
            Metrics { active: gauge_down(m.active), ..m },
            m_after,
            AbortSource::Provider,
        )
    } else {
        &&& after == rs
        &&& abort_counted(m, m_after, AbortSource::Provider)
    }
}

impl<H> DialogueEngine<H> {
    /// This is the engine `before` once the leg of a Begin ended, where the handler
    /// with index `i` left the dialogue as `d`.
    pub open spec fn answered(
        &self,
        before: &DialogueEngine<H>,
        m: Metrics,
        m_after: Metrics,
        i: usize,
        d: DialogueModel,
        ingress: Seq<char>,
        now: u64,
        out: Seq<MsuModel>,
    ) -> bool {
        &&& turn_finished(before.records(), m, d, ingress, now, out, self.records(), m_after)
        &&& self.drivers() == driven_on(before.drivers(), d, HandledBy::Registered(i))
    }

    /// This is the engine `before` once the leg of a peer's follow-up ended, where
    /// the dialogue's handler left it as `d`. After an End nothing is kept.
    pub open spec fn continued(
        &self,
        before: &DialogueEngine<H>,
        m: Metrics,
        m_after: Metrics,
        dtid: Seq<u8>,
        is_end: bool,
        d: DialogueModel,
        now: u64,
        out: Seq<MsuModel>,
    ) -> bool {
        let id = id_number(dtid)->Some_0;
        let rest = before.records().remove(id);
        let m_rest = Metrics { active: gauge_down(m.active), ..m };
        if is_end {
            &&& out == frames_of(d, before.records()[id].addressing)
            &&& self.records() == rest
            &&& self.drivers() == before.drivers().remove(id)
            &&& m_after == m_rest
        } else {
            &&& turn_finished(
                rest,
                m_rest,
                d,
                before.records()[id].ingress_assoc,
                now,
                out,
                self.records(),
                m_after,
            )
            &&& self.drivers() == driven_on(
                before.drivers().remove(id),
                d,
                before.handler_of(id),
            )
        }
    }

    /// The accepted Begin in an arriving unit, with the message that carries it.
    pub open spec fn begun_by(&self, inbound: MsuModel) -> Option<(MessageModel, TcModel)> {
        match arriving(inbound) {
            Some((u, t)) => if t.kind == TcKind::Begin && self.accepts(t, u) {
                Some((u, t))
            } else {
                None
            },
            None => None,
        }
    }

    /// The follow-up to an open dialogue in an arriving unit.
    pub open spec fn followed_by(&self, inbound: MsuModel) -> Option<TcModel> {
        match arriving(inbound) {
            Some((u, t)) => if (t.kind == TcKind::Continue || t.kind == TcKind::End) && names_open(
                self.records(),
                t.dtid,
            ) {
                Some(t)
            } else {
                None
            },
            None => None,
        }
    }

    /// The dialogue that a follow-up takes up, as its handler gets it.
    pub open spec fn taken_up(&self, t: TcModel) -> DialogueModel {
        resumed(
            self.records()[id_number(t.dtid)->Some_0],
            if t.kind == TcKind::Continue {
                Some(t.otid)
            } else {
                None
            },
            turn_of(t.components, t.kind == TcKind::End).answers(),
        )
    }

    /// This is the engine `before` once an arriving unit was terminated, with the
    /// units to send back: what is no transaction is ignored; a Begin opens a
    /// dialogue or is refused; a Continue or End goes to its dialogue; an Abort
    /// closes it.
    pub open spec fn delivered(
        &self,
        before: &DialogueEngine<H>,
        m: Metrics,
        m_after: Metrics,
        inbound: MsuModel,
        ingress: Seq<char>,
        now: u64,
        out: Seq<MsuModel>,
    ) -> bool {
        match arriving(inbound) {
            None => {
                &&& out.len() == 0
                &&& self.records() == before.records()
                &&& self.drivers() == before.drivers()
                &&& self.counter() == before.counter()
                &&& m_after == m
            },
            Some((u, t)) => match t.kind {
                TcKind::Begin => if before.accepts(t, u) {
                    &&& self.counter() == counted_up(before.counter())
                    &&& exists|d: DialogueModel| #[trigger]
                        turn_finished(
                            before.records(),
                            m,
                            d,
                            ingress,
                            now,
                            out,
                            self.records(),
                            m_after,
                        )
                } else {
                    &&& out == abort_units(
                        reversed(u, inbound),
                        t.otid,
                        AbortBy::Provider,
                    )
                    &&& abort_counted(m, m_after, AbortSource::Local)
                    &&& self.records() == before.records()
                    &&& self.drivers() == before.drivers()
                    &&& self.counter() == before.counter()
                },
                TcKind::Continue => {
                    &&& self.counter() == before.counter()
                    &&& !names_open(before.records(), t.dtid) ==> self.drivers()
                        == before.drivers()
                    &&& followed_up(
                        before.records(),
                        m,
                        t.dtid,
                        false,
                        now,
                        out,
                        self.records(),
                        m_after,
                    )
                },
                TcKind::End => {
                    &&& self.counter() == before.counter()
                    &&& !names_open(before.records(), t.dtid) ==> self.drivers()
                        == before.drivers()
                    &&& followed_up(
                        before.records(),
                        m,
                        t.dtid,
                        true,
                        now,
                        out,
                        self.records(),
                        m_after,
                    )
                },
                TcKind::Abort => {
                    &&& out.len() == 0
                    &&& self.counter() == before.counter()
                    &&& self.drivers() == if names_open(before.records(), t.dtid) {
                        before.drivers().remove(id_number(t.dtid)->Some_0)
                    } else {
                        before.drivers()
                    }
                    &&& aborted_by_peer(
                        before.records(),
                        m,
                        t.dtid,
                        self.records(),
                        m_after,
                    )
                },
                TcKind::Unidirectional => {
                    &&& out.len() == 0
                    &&& self.records() == before.records()
                    &&& self.drivers() == before.drivers()
                    &&& self.counter() == before.counter()
                    &&& m_after == m
                },
            },
        }
    }
}

impl<H> DialogueEngine<H> {
    /// This is the engine `before` once the opening leg of a dialogue of ours ended,
    /// where its handler `h` left the dialogue as `d`.
    pub open spec fn started(
        &self,
        before: &DialogueEngine<H>,
        m: Metrics,
        m_after: Metrics,
        addressing: AddressingModel,
        h: H,
        d: DialogueModel,
        ingress: Seq<char>,
        now: u64,
        out: Seq<MsuModel>,
    ) -> bool {
        &&& out == frames_of(d, addressing)
        &&& self.records() == kept_in(before.records(), d, ingress, now)
        &&& self.drivers() == driven_in(before.drivers(), d, HandledBy::Own(h))
        &&& m_after == (Metrics {
            active: if stays_open(d) {
                gauge_up(m.active)
            } else {
                m.active
            },
            ..m
        })
    }

    /// The dialogue of ours that is opened next, as its handler gets it.
    pub open spec fn opening(&self, context: Seq<u32>, addressing: AddressingModel) -> DialogueModel {
        DialogueModel::fresh_initiator(
            id_octets(marked(counted_up(self.counter()))),
            context,
            addressing,
        )
    }

    /// This is the engine `before` once a dialogue of ours was opened, with the
    /// units to send: those of the dialogue as its handler left it, which is kept
    /// if it is still open.
    pub open spec fn begun(
        &self,
        before: &DialogueEngine<H>,
        m: Metrics,
        m_after: Metrics,
        addressing: AddressingModel,
        ingress: Seq<char>,
        now: u64,
        out: Seq<MsuModel>,
    ) -> bool {
        &&& self.counter() == counted_up(before.counter())
        &&& exists|d: DialogueModel|
            {
                &&& out == #[trigger] frames_of(d, addressing)
                &&& self.records() == kept_in(before.records(), d, ingress, now)
                &&& m_after == (Metrics {
                    active: if stays_open(d) {
                        gauge_up(m.active)
                    } else {
                        m.active
                    },
                    ..m
                })
            }
    }
}

impl<H: TerminationHandler> DialogueEngine<H> {
    /// Runs the leg of a Begin.
    fn on_begin(
        &mut self,
        m: &mut Metrics,
        t: &TcMessage,
        udt: &Unitdata,
        inbound: &Msu,
        ingress_assoc: &str,
        now: u64,
    ) -> (r: Vec<Msu>)
        requires
            old(self).wf(),
        ensures
            final(self).wf(),
            final(self).same_setup(old(self)),
            if old(self).accepts(t@, udt@) {
                &&& final(self).counter() == counted_up(old(self).counter())
                &&& exists|d: DialogueModel| #[trigger]
                    turn_finished(
                        old(self).records(),
                        *old(m),
                        d,
                        ingress_assoc@,
                        now,
                        units(r@),
                        final(self).records(),
                        *final(m),
                    )
                &&& exists|x: &mut Dialogue, op: IncomingOp|
                    {
                        &&& #[trigger] call_ensures(
                            H::on_begin,
                            (&old(self).host(old(self).chosen(t@, udt@) as int), x, &op),
                            (),
                        )
                        &&& (*x)@ == old(self).opened(t@, udt@, inbound@)
                        &&& op@ == opening_op(t@, udt@)
                        &&& final(self).answered(
                            old(self),
                            *old(m),
                            *final(m),
                            old(self).chosen(t@, udt@),
                            (*final(x))@,
                            ingress_assoc@,
                            now,
                            units(r@),
                        )
                    }
            } else {
                &&& units(r@) == abort_units(
                    reversed(udt@, inbound@),
                    t.otid@,
                    AbortBy::Provider,
                )
                &&& abort_counted(*old(m), *final(m), AbortSource::Local)
                &&& final(self).records() == old(self).records()
                &&& final(self).drivers() == old(self).drivers()
                &&& final(self).counter() == old(self).counter()
            },
    {
        match self.open(m, t, udt, inbound) {
            Opening::Refused(out) => out,
            Opening::Opened { handler, dialogue, op } => {
                let mut dialogue = dialogue;
                proof {
                    assert(self.host(handler as int) == old(self).host(handler as int));
                }
                self.hosts[handler].on_begin(&mut dialogue, &op);
                let ghost d = dialogue@;
                let ghost rs = self.records();
                let ghost m0 = *m;
                let out = self.finish_turn(
                    m,
                    dialogue,
                    HandledBy::Registered(handler),
                    ingress_assoc,
                    now,
                );
                proof {
                    assert(turn_finished(
                        rs,
                        m0,
                        d,
                        ingress_assoc@,
                        now,
                        units(out@),
                        self.records(),
                        *m,
                    ));
                }
                out
            },
        }
    }

    /// Runs the leg of a peer's Continue or End.
    fn on_turn(
        &mut self,
        m: &mut Metrics,
        dtid: &Vec<u8>,
        otid: Option<Vec<u8>>,
        components: &Vec<TcComponent>,
        is_end: bool,
        now: u64,
    ) -> (r: Vec<Msu>)
        requires
            old(self).wf(),
        ensures
            final(self).wf(),
            final(self).same_setup(old(self)),
            final(self).counter() == old(self).counter(),
            followed_up(
                old(self).records(),
                *old(m),
                dtid@,
                is_end,
                now,
                units(r@),
                final(self).records(),
                *final(m),
            ),
            !names_open(old(self).records(), dtid@) ==> final(self).drivers()
                == old(self).drivers(),
            names_open(old(self).records(), dtid@) ==> exists|x: &mut Dialogue, peer: PeerTurn|
                {
                    &&& #[trigger] call_ensures(
                        H::on_continue,
                        (
                            &old(self).host_of(old(self).handler_of(id_number(dtid@)->Some_0)),
                            x,
                            &peer,
                        ),
                        (),
                    )
                    &&& (*x)@ == resumed(
                        old(self).records()[id_number(dtid@)->Some_0],
                        octets(otid),
                        turn_of(component_models(components@), is_end).answers(),
                    )
                    &&& peer@ == turn_of(component_models(components@), is_end)
                    &&& final(self).continued(
                        old(self),
                        *old(m),
                        *final(m),
                        dtid@,
                        is_end,
                        (*final(x))@,
                        now,
                        units(r@),
                    )
                },
    {
        let ghost rs = self.records();
        let Resumed { handler, dialogue, peer, ingress_assoc } = match self.resume(
            m,
            dtid,
            otid,
            components,
            is_end,
        ) {
            Some(x) => x,
            None => {
                let out: Vec<Msu> = Vec::new();
                return out;
            },
        };
        let mut dialogue = dialogue;
        let addressing = dialogue.addressing.copy();
        let host: &H = match &handler {
            HandledBy::Registered(i) => &self.hosts[*i],
            HandledBy::Own(h) => h,
        };
        proof {
            if let HandledBy::Registered(i) = handler {
                assert(self.host(i as int) == old(self).host(i as int));
            }
            assert(*host == old(self).host_of(old(self).handler_of(id_number(dtid@)->Some_0)));
        }
        host.on_continue(&mut dialogue, &peer);
        let ghost d = dialogue@;
        let ghost rest = self.records();
        let ghost m0 = *m;
        if is_end {
            let out = frames(&dialogue, &addressing);
            proof {
                assert(units(out@) == frames_of(d, rs[id_number(dtid@)->Some_0].addressing));
            }
            return out;
        }
        let out = self.finish_turn(m, dialogue, handler, ingress_assoc.as_str(), now);
        proof {
            assert(turn_finished(
                rest,
                m0,
                d,
                ingress_assoc@,
                now,
                units(out@),
                self.records(),
                *m,
            ));
        }
        out
    }

    /// Terminates one arriving unit and gives the units to send back.
    pub fn deliver(
        &mut self,
        m: &mut Metrics,
        inbound: &Msu,
        ingress_assoc: &str,
        now: u64,
    ) -> (r: Vec<Msu>)
        requires
            old(self).wf(),
        ensures
            final(self).wf(),
            final(self).same_setup(old(self)),
            final(self).delivered(
                old(self),
                *old(m),
                *final(m),
                inbound@,
                ingress_assoc@,
                now,
                units(r@),
            ),
            old(self).begun_by(inbound@) matches Some((u, t)) ==> exists|
                x: &mut Dialogue,
                op: IncomingOp,
            |
                {
                    &&& #[trigger] call_ensures(
                        H::on_begin,
                        (&old(self).host(old(self).chosen(t, u) as int), x, &op),
                        (),
                    )
                    &&& (*x)@ == old(self).opened(t, u, inbound@)
                    &&& op@ == opening_op(t, u)
                    &&& final(self).answered(
                        old(self),
                        *old(m),
                        *final(m),
                        old(self).chosen(t, u),
                        (*final(x))@,
                        ingress_assoc@,
                        now,
                        units(r@),
                    )
                },
            old(self).followed_by(inbound@) matches Some(t) ==> exists|
                x: &mut Dialogue,
                peer: PeerTurn,
            |
                {
                    &&& #[trigger] call_ensures(
                        H::on_continue,
                        (
                            &old(self).host_of(old(self).handler_of(id_number(t.dtid)->Some_0)),
                            x,
                            &peer,
                        ),
                        (),
                    )
                    &&& (*x)@ == old(self).taken_up(t)
                    &&& peer@ == turn_of(t.components, t.kind == TcKind::End)
                    &&& final(self).continued(
                        old(self),
                        *old(m),
                        *final(m),
                        t.dtid,
                        t.kind == TcKind::End,
                        (*final(x))@,
                        now,
                        units(r@),
                    )
                },
    {
        let none: Vec<Msu> = Vec::new();
        if inbound.si != SI_SCCP {
            return none;
        }
        let udt = match Unitdata::decode(inbound.payload.as_slice()) {
            Ok(u) => u,
            Err(_) => {
                return none;
            },
        };
        match (udt.form, udt.head) {
            (SccpForm::Short, SccpHead::Data { .. }) => {},
            _ => {
                return none;
            },
        }
        let t = match tcap_decode(udt.data.as_slice()) {
            Ok(t) => t,
            Err(_) => {
                return none;
            },
        };
        match t.kind {
            TcKind::Begin => self.on_begin(m, &t, &udt, inbound, ingress_assoc, now),
            TcKind::Continue => {
                let otid = copy_octets(&t.otid);
                self.on_turn(m, &t.dtid, Some(otid), &t.components, false, now)
            },
            TcKind::End => self.on_turn(m, &t.dtid, None, &t.components, true, now),
            TcKind::Abort => {
                self.close(m, &t.dtid);
                abort(m, AbortSource::Provider);
                none
            },
            TcKind::Unidirectional => none,
        }
    }

    /// Opens a dialogue of ours: the handler stages the opening. Gives our
    /// transaction id and the units to send.
    pub fn begin(&mut self, m: &mut Metrics, req: OutgoingBegin, handler: H, now: u64) -> (r: (
        Tid,
        Vec<Msu>,
    ))
        requires
            old(self).wf(),
        ensures
            final(self).wf(),
            final(self).same_setup(old(self)),
            r.0@ == id_octets(marked(final(self).counter())),
            final(self).begun(
                old(self),
                *old(m),
                *final(m),
                req.addressing(),
                req.ingress_assoc@,
                now,
                units(r.1@),
            ),
            exists|x: &mut Dialogue|
                {
                    &&& #[trigger] call_ensures(H::on_start, (&handler, x), ())
                    &&& (*x)@ == old(self).opening(req.application_context@, req.addressing())
                    &&& final(self).started(
                        old(self),
                        *old(m),
                        *final(m),
                        req.addressing(),
                        handler,
                        (*final(x))@,
                        req.ingress_assoc@,
                        now,
                        units(r.1@),
                    )
                },
    {
        let mut dialogue = self.start(&req);
        let tid = copy_octets(&dialogue.our_tid);
        let addressing = dialogue.addressing.copy();
        handler.on_start(&mut dialogue);
        let ghost d = dialogue@;
        let out = self.finish_start(
            m,
            dialogue,
            &addressing,
            handler,
            req.ingress_assoc.as_str(),
            now,
        );
        proof {
            assert(units(out@) == frames_of(d, req.addressing()));
        }
        (tid, out)
    }
}

// ── Ageing ──────────────────────────────────────────────────────────────────

/// The counters that ageing touches.
pub struct Ageing {
    /// Invoke timeouts by operation.
    pub operations: Map<i64, u64>,
    /// Dialogue timeouts.
    pub timeouts: u64,
    /// Open dialogues.
    pub active: i64,
    /// Aborts by source.
    pub aborts: Seq<u64>,
}

/// The counters that ageing touches, in `m`.
pub open spec fn ageing(m: Metrics) -> Ageing {
    Ageing {
        operations: m.operation_timeouts@,
        timeouts: m.timeouts,
        active: m.active,
        aborts: m.abort_counts@,
    }
}

/// The counters after one dialogue is aged out: an invoke that was not answered in
/// time counts for its operation, else the dialogue counts as timed out; either
/// way a dialogue closes and is aborted from here.
pub open spec fn aged(a: Ageing, r: RecordModel, config: Tcap, now: u64) -> Ageing {
    let late = invoke_expired(r, config, now);
    let slot = abort_source_slot(AbortSource::Local);
    Ageing {
        operations: if late {
            let op = r.awaited->Some_0.0;
            a.operations.insert(op, next(count_at(a.operations, op)))
        } else {
            a.operations
        },
        timeouts: if late {
            a.timeouts
        } else {
            next(a.timeouts)
        },
        active: gauge_down(a.active),
        aborts: a.aborts.update(slot, next(a.aborts[slot])),
    }
}

/// The counters after the first `n` of some dialogues are aged out.
pub open spec fn all_aged(
    a: Ageing,
    ids: Seq<u32>,
    rs: Records,
    config: Tcap,
    now: u64,
    n: int,
) -> Ageing
    decreases n,
{
    if n <= 0 {
        a
    } else {
        aged(all_aged(a, ids, rs, config, now, n - 1), rs[ids[n - 1]], config, now)
    }
}

/// A unit with the association it goes out on.
pub open spec fn sent(u: MsuModel, assoc: Seq<char>) -> (Seq<char>, MsuModel) {
    (assoc, u)
}

/// The aborts of one dialogue that is aged out.
pub open spec fn aborts_of(r: RecordModel) -> Seq<(Seq<char>, MsuModel)> {
    abort_units(r.addressing, r.peer_tid, AbortBy::Provider).map_values(
        |u: MsuModel| sent(u, r.ingress_assoc),
    )
}

/// The aborts of the first `n` of some dialogues.
pub open spec fn all_aborts(ids: Seq<u32>, rs: Records, n: int) -> Seq<(Seq<char>, MsuModel)>
    decreases n,
{
    if n <= 0 {
        Seq::empty()
    } else {
        all_aborts(ids, rs, n - 1) + aborts_of(rs[ids[n - 1]])
    }
}

/// The dialogues to be aged out among some, in their order.
pub open spec fn expired_among(tids: Seq<u32>, rs: Records, config: Tcap, now: u64) -> Seq<u32>
    decreases tids.len(),
{
    if tids.len() == 0 {
        Seq::empty()
    } else {
        let before = expired_among(tids.drop_last(), rs, config, now);
        if is_expired(rs[tids.last()], config, now) {
            before.push(tids.last())
        } else {
            before
        }
    }
}

/// What some units with their associations are.
pub open spec fn sent_units(s: Seq<(String, Msu)>) -> Seq<(Seq<char>, MsuModel)> {
    s.map_values(|p: (String, Msu)| (p.0@, p.1@))
}

/// The records without those to be aged out.
pub open spec fn survivors(rs: Records, config: Tcap, now: u64) -> Records {
    rs.restrict(Set::new(|k: u32| rs.contains_key(k) && !is_expired(rs[k], config, now)))
}

impl<H> Record<H> {
    /// The operation of an invoke that was not answered in time.
    fn late_operation(&self, config: &Tcap, now: u64) -> (r: Option<i64>)
        ensures
            r == if invoke_expired(self@, *config, now) {
                Some(self@.awaited->Some_0.0)
            } else {
                None
            },
    {
        match self.awaited {
            Some(a) => {
                if now >= a.1 && now - a.1 >= config.invoke_timer_ms {
                    Some(a.0)
                } else {
                    None
                }
            },
            None => None,
        }
    }

    fn is_over(&self, config: &Tcap, now: u64) -> (r: bool)
        ensures
            r == is_expired(self@, *config, now),
    {
        let idle: u64 = if now >= self.last_activity {
            now - self.last_activity
        } else {
            0
        };
        self.late_operation(config, now).is_some() || idle >= config.dialogue_timer_ms
    }
}

/// What was expired among some dialogues is among them, is to be aged out, and
/// appears once.
pub proof fn lemma_expired(tids: Seq<u32>, rs: Records, config: Tcap, now: u64)
    requires
        forall|i: int, j: int|
            0 <= i < j < tids.len() ==> #[trigger] tids[i] < #[trigger] tids[j],
    ensures
        forall|k: u32| #[trigger]
            expired_among(tids, rs, config, now).contains(k) <==> tids.contains(k) && is_expired(
                rs[k],
                config,
                now,
            ),
        forall|i: int, j: int|
            0 <= i < j < expired_among(tids, rs, config, now).len() ==> #[trigger] expired_among(
                tids,
                rs,
                config,
                now,
            )[i] < #[trigger] expired_among(tids, rs, config, now)[j],
    decreases tids.len(),
{
    let e = expired_among(tids, rs, config, now);
    if tids.len() > 0 {
        let shorter = tids.drop_last();
        let before = expired_among(shorter, rs, config, now);
        let last = tids.last();
        lemma_expired(shorter, rs, config, now);
        assert forall|k: u32| #[trigger] e.contains(k) <==> tids.contains(k) && is_expired(
            rs[k],
            config,
            now,
        ) by {
            if tids.contains(k) {
                let i = choose|i: int| 0 <= i < tids.len() && tids[i] == k;
                if i < shorter.len() {
                    assert(shorter[i] == k);
                } else {
                    assert(k == last);
                }
            }
            if shorter.contains(k) {
                let i = choose|i: int| 0 <= i < shorter.len() && shorter[i] == k;
                assert(tids[i] == k);
            }
            assert(tids[tids.len() - 1] == last);
            if is_expired(rs[last], config, now) {
                assert(e == before.push(last));
                assert(e[before.len() as int] == last);
                if before.contains(k) {
                    let i = choose|i: int| 0 <= i < before.len() && before[i] == k;
                    assert(e[i] == k);
                }
                if e.contains(k) {
                    let i = choose|i: int| 0 <= i < e.len() && e[i] == k;
                    if i < before.len() {
                        assert(before[i] == k);
                    }
                }
            }
        }
        assert forall|i: int, j: int| 0 <= i < j < e.len() implies #[trigger] e[i]
            < #[trigger] e[j] by {
            if j < before.len() {
                assert(e[i] == before[i]);
                assert(e[j] == before[j]);
            } else {
                assert(e[j] == last);
                assert(e[i] == before[i]);
                assert(before.contains(before[i]));
                assert(shorter.contains(before[i]));
                let k = choose|k: int| 0 <= k < shorter.len() && shorter[k] == before[i];
                assert(tids[k] < tids[tids.len() - 1]);
            }
        }
    } else {
        assert forall|k: u32| #[trigger] e.contains(k) <==> tids.contains(k) && is_expired(
            rs[k],
            config,
            now,
        ) by {}
    }
}

impl<H> DialogueEngine<H> {
    fn expired(&self, now: u64) -> (r: Vec<u32>)
        requires
            self.wf(),
        ensures
            r@ == expired_among(self.tids(), self.records(), self.settings(), now),
    {
        let ghost tids = self.tids();
        let mut out: Vec<u32> = Vec::new();
        let mut i: usize = 0;
        proof {
            assert(tids.take(0) =~= Seq::<u32>::empty());
            assert(out@ =~= expired_among(tids.take(0), self.records(), self.config, now));
        }
        while i < self.dialogues.len()
            invariant
                self.wf(),
                tids == self.tids(),
                i <= self.dialogues.size(),
                out@ == expired_among(tids.take(i as int), self.records(), self.config, now),
            decreases self.dialogues.size() - i,
        {
            proof {
                self.dialogues.lemma_entry(i as int);
                assert(tids.take(i + 1).drop_last() =~= tids.take(i as int));
                assert(tids.take(i + 1).last() == self.dialogues.key_at(i as int));
            }
            if self.dialogues.value(i).is_over(&self.config, now) {
                out.push(*self.dialogues.key(i));
            }
            i += 1;
        }
        proof {
            assert(tids.take(i as int) =~= tids);
        }
        out
    }

    /// Ages out what is to be aged out: a dialogue whose invoke was not answered in
    /// time, or that sat idle for too long. Each is counted, forgotten, and aborted
    /// toward its peer; the aborts come back with the associations they go out on.
    pub fn sweep(&mut self, m: &mut Metrics, now: u64) -> (r: Vec<(String, Msu)>)
        requires
            old(self).wf(),
            old(m).wf(),
        ensures
            final(self).wf(),
            final(m).wf(),
            final(self).same_setup(old(self)),
            final(self).counter() == old(self).counter(),
            final(self).records() == survivors(old(self).records(), old(self).settings(), now),
            final(self).drivers() == old(self).drivers().restrict(final(self).records().dom()),
            ({
                let ids = expired_among(
                    old(self).tids(),
                    old(self).records(),
                    old(self).settings(),
                    now,
                );
                &&& final(self).size() + ids.len() == old(self).size()
                &&& sent_units(r@) == all_aborts(ids, old(self).records(), ids.len() as int)
                &&& ageing(*final(m)) == all_aged(
                    ageing(*old(m)),
                    ids,
                    old(self).records(),
                    old(self).settings(),
                    now,
                    ids.len() as int,
                )
            }),
            *final(m) == (Metrics {
                operation_timeouts: final(m).operation_timeouts,
                timeouts: final(m).timeouts,
                active: final(m).active,
                abort_counts: final(m).abort_counts,
                ..*old(m)
            }),
    {
        let ghost before = *self;
        let ghost rs = self.records();
        let ghost m0 = *m;
        let ids = self.expired(now);
        let mut out: Vec<(String, Msu)> = Vec::new();
        let mut i: usize = 0;
        proof {
            self.lemma_tids();
            lemma_expired(self.tids(), rs, self.config, now);
            assert(sent_units(out@) =~= all_aborts(ids@, rs, 0));
            assert(rs =~= rs.remove_keys(ids@.take(0).to_set()));
        }
        while i < ids.len()
            invariant
                self.wf(),
                m.wf(),
                self.same_setup(&before),
                self.counter() == before.counter(),
                i <= ids@.len(),
                forall|k: u32| #[trigger] ids@.contains(k) ==> rs.contains_key(k),
                forall|a: int, b: int| 0 <= a < b < ids@.len() ==> #[trigger] ids@[a] < #[trigger] ids@[b],
                self.records() == rs.remove_keys(ids@.take(i as int).to_set()),
                self.size() + i == before.size(),
                rs == before.records(),
                forall|k: u32| #[trigger]
                    self.drivers().contains_key(k) ==> self.drivers()[k] == before.drivers()[k],
                sent_units(out@) == all_aborts(ids@, rs, i as int),
                ageing(*m) == all_aged(ageing(m0), ids@, rs, before.settings(), now, i as int),
                *m == (Metrics {
                    operation_timeouts: m.operation_timeouts,
                    timeouts: m.timeouts,
                    active: m.active,
                    abort_counts: m.abort_counts,
                    ..m0
                }),
            decreases ids@.len() - i,
        {
            let id: u32 = ids[i];
            let ghost gone = ids@.take(i as int).to_set();
            let ghost now_held = self.records();
            let ghost start = *self;
            proof {
                assert(ids@.contains(id));
                assert(!gone.contains(id)) by {
                    if gone.contains(id) {
                        let a = choose|a: int| 0 <= a < i && ids@.take(i as int)[a] == id;
                        assert(ids@[a] < ids@[i as int]);
                    }
                }
                assert(self.records().contains_key(id));
            }
            match self.dialogues.take(&id) {
                Some(rec) => {
                    proof {
                        assert(now_held[id] == start.dialogues@[id]@);
                        assert(rec@ == rs[id]);
                        assert forall|j: int| 0 <= j < self.host_count() implies #[trigger] self.host(j)
                            == before.host(j) by {
                            assert(self.host(j) == start.host(j));
                        }
                        assert(self.records() =~= now_held.remove(id));
                        start.lemma_count();
                        assert(self.records().dom() =~= now_held.dom().remove(id));
                        let longer = ids@.take(i + 1);
                        assert forall|k: u32| #[trigger] longer.to_set().contains(k)
                            == gone.insert(id).contains(k) by {
                            if gone.contains(k) {
                                let a = choose|a: int| 0 <= a < i && ids@.take(i as int)[a] == k;
                                assert(longer[a] == k);
                            }
                            if longer.contains(k) {
                                let a = choose|a: int| 0 <= a < longer.len() && longer[a] == k;
                                if a < i {
                                    assert(ids@.take(i as int)[a] == k);
                                }
                            }
                            assert(longer[i as int] == id);
                        }
                        assert(ids@.take(i + 1).to_set() =~= gone.insert(id));
                        assert(self.records() =~= rs.remove_keys(gone.insert(id)));
                        assert(self.drivers() =~= start.drivers().remove(id));
                    }
                    match rec.late_operation(&self.config, now) {
                        Some(op) => invoke_timeout(m, op),
                        None => dialogue_timeout(m),
                    }
                    dialogue_closed(m);
                    abort(m, AbortSource::Local);
                    let units_out = abort_now(&rec.addressing, &rec.peer_tid, AbortBy::Provider);
                    append_sent(&mut out, units_out, &rec.ingress_assoc);
                },
                None => {},
            }
            i += 1;
        }
        proof {
            assert(ids@.take(i as int) =~= ids@);
            assert forall|k: u32| #[trigger] self.records().contains_key(k) == survivors(
                rs,
                before.settings(),
                now,
            ).contains_key(k) by {
                assert(ids@.contains(k) <==> before.tids().contains(k) && is_expired(
                    rs[k],
                    before.settings(),
                    now,
                ));
                assert(before.tids().contains(k) == rs.contains_key(k));
            }
            assert(self.records() =~= survivors(rs, before.settings(), now));
        }
        out
    }
}

/// Appends units, each with the association it goes out on.
fn append_sent(out: &mut Vec<(String, Msu)>, units_out: Vec<Msu>, assoc: &String)
    ensures
        sent_units(final(out)@) == sent_units(old(out)@) + units(units_out@).map_values(
            |u: MsuModel| sent(u, assoc@),
        ),
{
    let ghost start = out@;
    let mut i: usize = 0;
    while i < units_out.len()
        invariant
            i <= units_out@.len(),
            sent_units(out@) == sent_units(start) + units(units_out@).take(i as int).map_values(
                |u: MsuModel| sent(u, assoc@),
            ),
        decreases units_out@.len() - i,
    {
        let ghost before = out@;
        out.push((assoc.clone(), units_out[i].copy()));
        i += 1;
        proof {
            assert(sent_units(out@) =~= sent_units(before).push(
                sent(units_out@[i - 1]@, assoc@),
            ));
            assert(units(units_out@).take(i as int) =~= units(units_out@).take(i - 1).push(
                units_out@[i - 1]@,
            ));
            assert(units(units_out@).take(i as int).map_values(|u: MsuModel| sent(u, assoc@))
                =~= units(units_out@).take(i - 1).map_values(|u: MsuModel| sent(u, assoc@)).push(
                sent(units_out@[i - 1]@, assoc@),
            ));
        }
    }
    proof {
        assert(units(units_out@).take(i as int) =~= units(units_out@));
    }
}

/// The records with a dialogue kept after a leg, if it is still open. Its id is
/// one of ours.
pub open spec fn kept_in(rs: Records, d: DialogueModel, ingress: Seq<char>, now: u64) -> Records {
    if stays_open(d) {
        rs.insert(id_number(d.our_tid)->Some_0, kept(d, ingress, now))
    } else {
        rs
    }
}

/// The dialogue is not closed, and its id is one of ours.
pub open spec fn stays_open(d: DialogueModel) -> bool {
    !d.closed && id_number(d.our_tid) is Some
}

/// The transaction id names an open dialogue.
pub open spec fn names_open(rs: Records, dtid: Seq<u8>) -> bool {
    id_number(dtid) matches Some(n) && rs.contains_key(n)
}

/// The digits of an address, if it has a global title.
pub fn gt_digits(addr: &PartyAddress) -> (r: Option<String>)
    ensures
        text_of(r) == addr@.global_title.digits(),
{
    match addr.global_title.digits() {
        Some(s) => Some(s.to_owned()),
        None => None,
    }
}

} // verus!
