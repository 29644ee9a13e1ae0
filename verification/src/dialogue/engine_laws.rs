//! What the dialogue engine decides, stated on the messages and records themselves.
use crate::config::Tcap;
use crate::dialogue::engine::{
    abort_counted, aborted_by_peer, arriving, followed_up, frames_of, framed_out, gauge_down,
    gauge_up, handler_for, id_number, idle_expired, invoke_expired, is_expired, kept, kept_in,
    names_open, opening_op, resumed, turn_finished, DialogueEngine, HandledBy, OutgoingBegin,
    RecordModel, Records, Registrations,
};
use crate::dialogue::handle::{wrapped, AddressingModel, DialogueModel, Role};
use crate::dialogue::turn::{first_operation, turn_of, PeerModel};
use crate::metrics::{next, AbortSource, Metrics};
use crate::sccp::message::{sccp_decoded, MessageModel, SccpForm};
use crate::transaction::{
    tcap_decoded, AbortBy, ComponentModel, ContextModel, OutgoingModel, TcKind, TcModel,
};
use crate::transport::msu::MsuModel;
use vstd::prelude::*;

verus! {

// ── Timers ──────────────────────────────────────────────────────────────────

/// A dialogue expires when its invoke has waited for the invoke timer, or when nothing
/// happened on it for the dialogue timer, and not before.
pub proof fn law_expiry_is_by_the_timers(r: RecordModel, config: Tcap, now: u64)
    requires
        r.last_activity <= now,
    ensures
        is_expired(r, config, now) <==> (r.awaited is Some && r.awaited->Some_0.1
            + config.invoke_timer_ms <= now) || r.last_activity + config.dialogue_timer_ms <= now,
        invoke_expired(r, config, now) <==> r.awaited is Some && r.awaited->Some_0.1
            + config.invoke_timer_ms <= now,
        idle_expired(r, config, now) <==> r.last_activity + config.dialogue_timer_ms <= now,
{
}

/// A dialogue that is kept counts as active then, on the association it came over. An
/// invoke staged on this leg is due from then on; one that was due before and was not
/// answered stays due from when it was asked.
pub proof fn law_kept_dialogue_is_timed(d: DialogueModel, ingress: Seq<char>, now: u64)
    ensures
        kept(d, ingress, now).last_activity == now,
        kept(d, ingress, now).ingress_assoc == ingress,
        d.awaiting_op matches Some(op) ==> kept(d, ingress, now).awaited == Some((op, now)),
        d.awaiting_op is None ==> kept(d, ingress, now).awaited == d.outstanding,
{
}

/// An invoke that a leg leaves unanswered keeps its deadline: however often the peer
/// goes on without answering, it is due from when it was asked. An answer clears it.
pub proof fn law_unanswered_invoke_keeps_its_deadline(
    d: DialogueModel,
    op: i64,
    ingress: Seq<char>,
    asked: u64,
    otid: Option<Seq<u8>>,
    later: u64,
)
    requires
        d.awaiting_op == Some(op),
    ensures
        kept(resumed(kept(d, ingress, asked), otid, false), ingress, later).awaited == Some(
            (op, asked),
        ),
        kept(resumed(kept(d, ingress, asked), otid, true), ingress, later).awaited is None,
        kept(resumed(kept(d, ingress, asked), otid, false), ingress, later).last_activity == later,
{
}

/// A dialogue that is taken up again goes on where it was: its ids, its context, the
/// invoke that it answers and the number of its next invoke. The peer's id is learnt
/// from the first message of a peer that had none, and does not change after that.
pub proof fn law_resumed_dialogue_goes_on(r: RecordModel, otid: Option<Seq<u8>>, answered: bool)
    ensures
        resumed(r, otid, answered).role == r.role,
        resumed(r, otid, answered).our_tid == r.our_tid,
        r.peer_tid.len() > 0 ==> resumed(r, otid, answered).peer_tid == r.peer_tid,
        r.peer_tid.len() == 0 ==> (otid matches Some(t) ==> resumed(r, otid, answered).peer_tid
            == t),
        resumed(r, otid, answered).ac == r.ac,
        resumed(r, otid, answered).addressing == r.addressing,
        resumed(r, otid, answered).reply_invoke_id == r.reply_invoke_id,
        resumed(r, otid, answered).next_invoke_id == r.next_invoke_id,
        resumed(r, otid, answered).first_flush_done,
        !resumed(r, otid, answered).aare_pending,
        !resumed(r, otid, answered).closed,
        resumed(r, otid, answered).pending.len() == 0,
        resumed(r, otid, answered).out.len() == 0,
        resumed(r, otid, answered).awaiting_op is None,
{
}

// ── The first operation ─────────────────────────────────────────────────────

/// A component is an invoke of an operation that is given by its local code.
pub open spec fn invokes_locally(c: ComponentModel) -> bool {
    c is Invoke && c->Invoke_operation is Some
}

/// Component `i` is the first invoke with a local code.
pub open spec fn opens_at(cs: Seq<ComponentModel>, i: int) -> bool {
    &&& 0 <= i < cs.len()
    &&& invokes_locally(cs[i])
    &&& forall|j: int| 0 <= j < i ==> !invokes_locally(#[trigger] cs[j])
}

proof fn first_operation_at(cs: Seq<ComponentModel>, from: int, i: int)
    requires
        0 <= from <= i < cs.len(),
        invokes_locally(cs[i]),
        forall|j: int| from <= j < i ==> !invokes_locally(#[trigger] cs[j]),
    ensures
        first_operation(cs, from) == Some(
            (
                cs[i]->Invoke_invoke_id,
                cs[i]->Invoke_operation->Some_0,
                cs[i]->Invoke_parameter,
            ),
        ),
    decreases i - from,
{
    if from < i {
        assert(!invokes_locally(cs[from]));
        first_operation_at(cs, from + 1, i);
    }
}

proof fn no_operation(cs: Seq<ComponentModel>, from: int)
    requires
        0 <= from,
        forall|j: int| from <= j < cs.len() ==> !invokes_locally(#[trigger] cs[j]),
    ensures
        first_operation(cs, from) is None,
    decreases cs.len() - from,
{
    if from < cs.len() {
        assert(!invokes_locally(cs[from]));
        no_operation(cs, from + 1);
    }
}

/// The operation of a message is its first invoke with a local code, with its own
/// invoke id and argument; a message without one has none.
pub proof fn law_first_invoke_is_the_operation(cs: Seq<ComponentModel>, i: int)
    ensures
        opens_at(cs, i) ==> first_operation(cs, 0) == Some(
            (
                cs[i]->Invoke_invoke_id,
                cs[i]->Invoke_operation->Some_0,
                cs[i]->Invoke_parameter,
            ),
        ),
        (forall|j: int| 0 <= j < cs.len() ==> !invokes_locally(#[trigger] cs[j]))
            ==> first_operation(cs, 0) is None,
{
    if opens_at(cs, i) {
        first_operation_at(cs, 0, i);
    }
    if forall|j: int| 0 <= j < cs.len() ==> !invokes_locally(#[trigger] cs[j]) {
        no_operation(cs, 0);
    }
}

/// The subsystem that a message is for, 0 if it names none.
pub open spec fn is_for(m: MessageModel, ssn: u8) -> bool {
    m.called_party.ssn == Some(ssn) || (m.called_party.ssn is None && ssn == 0)
}

/// A Begin is accepted exactly if some handler or fallback is there for its operation on
/// the called subsystem, and there is room for another dialogue. It goes to the handler,
/// and to the fallback only where there is no handler.
pub proof fn law_begin_goes_to_its_handler<H>(
    e: &DialogueEngine<H>,
    t: TcModel,
    udt: MessageModel,
    i: int,
    ssn: u8,
)
    requires
        opens_at(t.components, i),
        is_for(udt, ssn),
    ensures
        ({
            let k = (ssn as u32, t.components[i]->Invoke_operation->Some_0);
            &&& e.accepts(t, udt) <==> (e.registered().contains_key(k) || e.fallback().contains_key(
                k,
            )) && e.size() < e.settings().max_dialogues
            &&& e.accepts(t, udt) && e.registered().contains_key(k) ==> e.chosen(t, udt)
                == e.registered()[k]
            &&& e.accepts(t, udt) && !e.registered().contains_key(k) ==> e.chosen(t, udt)
                == e.fallback()[k]
        }),
{
    first_operation_at(t.components, 0, i);
}

/// A Begin without an invoke by a local code is refused.
pub proof fn law_begin_needs_an_operation<H>(e: &DialogueEngine<H>, t: TcModel, udt: MessageModel)
    requires
        forall|j: int| 0 <= j < t.components.len() ==> !invokes_locally(#[trigger] t.components[j]),
    ensures
        !e.accepts(t, udt),
{
    no_operation(t.components, 0);
}

/// A handler that is registered for an operation is the one found for it, whatever
/// fallbacks there are; a fallback is found only where there is no handler. Neither
/// changes what is found for another operation or another subsystem.
pub proof fn law_registration_is_found(
    hs: Registrations,
    fs: Registrations,
    ssn: u8,
    op: i64,
    h: usize,
    other: (u8, i64),
)
    requires
        other != (ssn, op),
    ensures
        handler_for(hs.insert((ssn as u32, op), h), fs, ssn, op) == Some(h),
        !hs.contains_key((ssn as u32, op)) ==> handler_for(
            hs,
            fs.insert((ssn as u32, op), h),
            ssn,
            op,
        ) == Some(h),
        hs.contains_key((ssn as u32, op)) ==> handler_for(hs, fs.insert((ssn as u32, op), h), ssn, op)
            == Some(hs[(ssn as u32, op)]),
        handler_for(hs.insert((ssn as u32, op), h), fs, other.0, other.1) == handler_for(
            hs,
            fs,
            other.0,
            other.1,
        ),
        handler_for(hs, fs.insert((ssn as u32, op), h), other.0, other.1) == handler_for(
            hs,
            fs,
            other.0,
            other.1,
        ),
        handler_for(hs, fs, ssn, op) is None <==> !hs.contains_key((ssn as u32, op))
            && !fs.contains_key((ssn as u32, op)),
{
}

/// What a handler is told of the Begin that opens its dialogue, and the dialogue that it
/// gets: the operation, id and argument of the first invoke, the context that the peer
/// asks for, the called subsystem, the digits of both parties. The dialogue answers that
/// invoke, goes to the peer's transaction, and is addressed back to the sender.
pub proof fn law_opened_dialogue<H>(
    e: &DialogueEngine<H>,
    t: TcModel,
    udt: MessageModel,
    inbound: MsuModel,
    i: int,
    ssn: u8,
)
    requires
        opens_at(t.components, i),
        is_for(udt, ssn),
    ensures
        opening_op(t, udt).operation_code == t.components[i]->Invoke_operation->Some_0,
        opening_op(t, udt).invoke_id == t.components[i]->Invoke_invoke_id,
        opening_op(t, udt).argument == t.components[i]->Invoke_parameter,
        opening_op(t, udt).called_ssn == ssn,
        opening_op(t, udt).calling_gt == udt.calling_party.global_title.digits(),
        opening_op(t, udt).called_gt == udt.called_party.global_title.digits(),
        t.context matches ContextModel::Request(a) ==> opening_op(t, udt).application_context
            == Some(a) && e.opened(t, udt, inbound).ac == a,
        !(t.context is Request) ==> opening_op(t, udt).application_context is None && e.opened(
            t,
            udt,
            inbound,
        ).ac.len() == 0,
        e.opened(t, udt, inbound).role == Role::Responder,
        e.opened(t, udt, inbound).peer_tid == t.otid,
        e.opened(t, udt, inbound).reply_invoke_id == t.components[i]->Invoke_invoke_id,
        e.opened(t, udt, inbound).next_invoke_id == 1,
        e.opened(t, udt, inbound).our_tid.len() == 4,
        e.opened(t, udt, inbound).our_tid[0] >= 0x80,
        e.opened(t, udt, inbound).addressing.out_called == udt.calling_party,
        e.opened(t, udt, inbound).addressing.out_calling == udt.called_party,
        e.opened(t, udt, inbound).addressing.dpc == inbound.opc,
        e.opened(t, udt, inbound).addressing.opc == inbound.dpc,
        e.opened(t, udt, inbound).addressing.ni == inbound.ni,
        e.opened(t, udt, inbound).addressing.sls == inbound.sls,
{
    first_operation_at(t.components, 0, i);
    crate::dialogue::laws::law_ids_are_marked(crate::dialogue::engine::counted_up(e.counter()));
}

/// A dialogue that we open is ours, under an id of ours, with the context asked for, and
/// has no peer yet.
pub proof fn law_started_dialogue<H>(e: &DialogueEngine<H>, context: Seq<u32>, a: AddressingModel)
    ensures
        e.opening(context, a).role == Role::Initiator,
        e.opening(context, a).ac == context,
        e.opening(context, a).addressing == a,
        e.opening(context, a).peer_tid.len() == 0,
        e.opening(context, a).next_invoke_id == 1,
        e.opening(context, a).our_tid.len() == 4,
        e.opening(context, a).our_tid[0] >= 0x80,
{
    crate::dialogue::laws::law_ids_are_marked(crate::dialogue::engine::counted_up(e.counter()));
}

// ── A peer's turn ───────────────────────────────────────────────────────────

/// What a handler is told of one component of a peer.
pub open spec fn tells(c: ComponentModel, p: PeerModel) -> bool {
    match c {
        ComponentModel::Invoke { invoke_id, operation, parameter } => {
            &&& p is Invoke && p->Invoke_invoke_id == invoke_id && p->argument == parameter
            &&& operation matches Some(op) ==> p->Invoke_operation_code == op
            &&& operation is None ==> p->Invoke_operation_code == -1
        },
        ComponentModel::ResultWith { invoke_id, operation, parameter } => {
            &&& p is Result && p->Result_invoke_id == invoke_id && p->parameter == parameter
            &&& operation matches Some(op) ==> p->Result_operation_code == Some(op)
            &&& operation is None ==> p->Result_operation_code == Some(-1i64)
        },
        ComponentModel::ResultEmpty { invoke_id } => p is Result && p->Result_invoke_id
            == invoke_id && p->Result_operation_code is None && p->parameter is None,
        ComponentModel::Error { invoke_id, error } => {
            &&& p is Error && p->Error_invoke_id == invoke_id
            &&& error matches Some(code) ==> p->error_code == code
            &&& error is None ==> p->error_code == -1
        },
        ComponentModel::Reject { invoke_id } => p is Error && p->Error_invoke_id == invoke_id
            && p->error_code == -1,
    }
}

/// A handler is told each component of a peer's message, in order, under its own invoke
/// id; an operation or error by a global code counts as -1, and so does a reject. The
/// message answers an invoke of ours exactly if some component is no invoke.
pub proof fn law_turn_tells_every_component(cs: Seq<ComponentModel>, is_end: bool)
    ensures
        turn_of(cs, is_end).is_end == is_end,
        turn_of(cs, is_end).components.len() == cs.len(),
        forall|i: int| 0 <= i < cs.len() ==> tells(cs[i], #[trigger] turn_of(cs, is_end).components[i]),
        turn_of(cs, is_end).answers() <==> exists|i: int|
            0 <= i < cs.len() && !((#[trigger] cs[i]) is Invoke),
{
    let t = turn_of(cs, is_end);
    if exists|i: int| 0 <= i < cs.len() && !((#[trigger] cs[i]) is Invoke) {
        let i = choose|i: int| 0 <= i < cs.len() && !((#[trigger] cs[i]) is Invoke);
        assert(!(t.components[i] is Invoke));
    }
    if t.answers() {
        let i = choose|i: int| 0 <= i < t.components.len() && !(#[trigger] t.components[i] is Invoke);
        assert(!(cs[i] is Invoke));
    }
}

/// A Continue gives us the peer's id, where we had none; an End gives none. The dialogue
/// stays due for its invoke unless some component of the message is no invoke.
pub proof fn law_follow_up_takes_the_dialogue_up<H>(e: &DialogueEngine<H>, t: TcModel, id: u32)
    requires
        id_number(t.dtid) == Some(id),
        e.records().contains_key(id),
    ensures
        ({
            let r = e.records()[id];
            let d = e.taken_up(t);
            &&& d.our_tid == r.our_tid
            &&& r.peer_tid.len() == 0 && t.kind == TcKind::Continue ==> d.peer_tid == t.otid
            &&& r.peer_tid.len() > 0 || t.kind != TcKind::Continue ==> d.peer_tid == r.peer_tid
            &&& d.next_invoke_id == r.next_invoke_id
            &&& (forall|i: int| 0 <= i < t.components.len() ==> (#[trigger] t.components[i]) is Invoke)
                ==> d.outstanding == r.awaited
            &&& (exists|i: int|
                0 <= i < t.components.len() && !((#[trigger] t.components[i]) is Invoke))
                ==> d.outstanding is None
        }),
{
    law_turn_tells_every_component(t.components, t.kind == TcKind::End);
}

// ── Units ───────────────────────────────────────────────────────────────────

/// The messages of a turn go out in order, one unit for each; one that does not encode is
/// left out.
pub proof fn law_messages_go_out_in_order(d: DialogueModel, a: AddressingModel)
    ensures
        (forall|i: int| 0 <= i < d.out.len() ==> wrapped(#[trigger] d.out[i], a) is Some) ==> {
            &&& frames_of(d, a).len() == d.out.len()
            &&& forall|i: int|
                0 <= i < d.out.len() ==> Some(#[trigger] frames_of(d, a)[i]) == wrapped(d.out[i], a)
        },
        frames_of(d, a).len() <= d.out.len(),
{
    frames_in_order(d.out, a, d.out.len() as int);
}

proof fn frames_in_order(out: Seq<OutgoingModel>, a: AddressingModel, n: int)
    requires
        0 <= n <= out.len(),
    ensures
        framed_out(out, a, n).len() <= n,
        (forall|i: int| 0 <= i < n ==> wrapped(#[trigger] out[i], a) is Some) ==> framed_out(
            out,
            a,
            n,
        ).len() == n && forall|i: int|
            0 <= i < n ==> Some(#[trigger] framed_out(out, a, n)[i]) == wrapped(out[i], a),
    decreases n,
{
    if n > 0 {
        frames_in_order(out, a, n - 1);
        if forall|i: int| 0 <= i < n ==> wrapped(#[trigger] out[i], a) is Some {
            assert(wrapped(out[n - 1], a) is Some);
        }
    }
}

/// A unit is taken for a dialogue exactly if it is an SCCP unit that decodes to data in
/// the short form whose payload decodes as a transaction message.
pub proof fn law_only_transactions_arrive(inbound: MsuModel)
    ensures
        arriving(inbound) is Some <==> {
            &&& inbound.si == 3
            &&& sccp_decoded(inbound.payload) is Ok
            &&& sccp_decoded(inbound.payload)->Ok_0.form == SccpForm::Short
            &&& sccp_decoded(inbound.payload)->Ok_0.head is Data
            &&& tcap_decoded(sccp_decoded(inbound.payload)->Ok_0.data) is Ok
        },
        arriving(inbound) matches Some(p) ==> sccp_decoded(inbound.payload) == Ok::<
            MessageModel,
            Seq<char>,
        >(p.0) && tcap_decoded(p.0.data) == Ok::<TcModel, Seq<char>>(p.1),
{
}

/// A Begin that is not accepted is answered with one abort by the provider to the peer's
/// transaction, addressed back to it; nothing is opened, and one local abort is counted.
pub proof fn law_refused_begin_is_aborted<H>(
    after: &DialogueEngine<H>,
    before: &DialogueEngine<H>,
    m: Metrics,
    m_after: Metrics,
    inbound: MsuModel,
    ingress: Seq<char>,
    now: u64,
    out: Seq<MsuModel>,
    a: AddressingModel,
)
    requires
        after.delivered(before, m, m_after, inbound, ingress, now, out),
        arriving(inbound) is Some,
        arriving(inbound)->Some_0.1.kind == TcKind::Begin,
        !before.accepts(arriving(inbound)->Some_0.1, arriving(inbound)->Some_0.0),
        a.out_called == arriving(inbound)->Some_0.0.calling_party,
        a.out_calling == arriving(inbound)->Some_0.0.called_party,
        a.opc == inbound.dpc,
        a.dpc == inbound.opc,
        a.ni == inbound.ni,
        a.sls == inbound.sls,
        m.abort_counts@.len() == 3,
    ensures
        after.records() == before.records(),
        after.counter() == before.counter(),
        m_after.active == m.active,
        m_after.abort_counts@[2] == next(m.abort_counts@[2]),
        m_after.abort_counts@[0] == m.abort_counts@[0],
        m_after.abort_counts@[1] == m.abort_counts@[1],
        ({
            let unit = wrapped(
                OutgoingModel::Abort {
                    dtid: arriving(inbound)->Some_0.1.otid,
                    by: AbortBy::Provider,
                },
                a,
            );
            &&& unit is Some ==> out == seq![unit->Some_0]
            &&& unit is None ==> out.len() == 0
        }),
{
}

/// A message that arrives and is no Begin, Continue, End or Abort changes nothing, and an
/// Abort is never answered.
pub proof fn law_others_are_ignored<H>(
    after: &DialogueEngine<H>,
    before: &DialogueEngine<H>,
    m: Metrics,
    m_after: Metrics,
    inbound: MsuModel,
    ingress: Seq<char>,
    now: u64,
    out: Seq<MsuModel>,
)
    requires
        after.delivered(before, m, m_after, inbound, ingress, now, out),
    ensures
        arriving(inbound) is None || arriving(inbound)->Some_0.1.kind == TcKind::Unidirectional
            ==> out.len() == 0 && after.records() == before.records() && m_after == m
            && after.counter() == before.counter(),
        arriving(inbound) is Some && arriving(inbound)->Some_0.1.kind == TcKind::Abort
            ==> out.len() == 0,
{
}

// ── The gauge of open dialogues ─────────────────────────────────────────────

/// The gauge of open dialogues follows the store through a turn: it rises by one exactly
/// if the dialogue is stored, and falls by none.
pub proof fn law_gauge_follows_a_turn(
    rs: Records,
    m: Metrics,
    d: DialogueModel,
    ingress: Seq<char>,
    now: u64,
    out: Seq<MsuModel>,
    after: Records,
    m_after: Metrics,
)
    requires
        turn_finished(rs, m, d, ingress, now, out, after, m_after),
        rs.dom().finite(),
        id_number(d.our_tid) matches Some(id) ==> !rs.contains_key(id),
        m.active < i64::MAX,
    ensures
        after.dom().finite(),
        m_after.active - m.active == after.dom().len() - rs.dom().len(),
        d.closed ==> after == rs,
{
}

/// The gauge follows the store through a peer's follow-up and through a peer's abort: a
/// dialogue that goes is taken off it, and one that stays is still counted once.
pub proof fn law_gauge_follows_a_peer(
    rs: Records,
    m: Metrics,
    dtid: Seq<u8>,
    is_end: bool,
    now: u64,
    out: Seq<MsuModel>,
    after: Records,
    m_after: Metrics,
)
    requires
        rs.dom().finite(),
        i64::MIN < m.active,
    ensures
        aborted_by_peer(rs, m, dtid, after, m_after) ==> m_after.active - m.active
            == after.dom().len() - rs.dom().len(),
        followed_up(rs, m, dtid, true, now, out, after, m_after) ==> m_after.active - m.active
            == after.dom().len() - rs.dom().len(),
{
}

/// The store after a turn: a dialogue that is open is found under its id, one that was
/// closed is not there, and no other is touched.
pub proof fn law_store_after_a_turn(
    rs: Records,
    d: DialogueModel,
    ingress: Seq<char>,
    now: u64,
    k: u32,
)
    requires
        d.our_tid.len() == 4,
    ensures
        ({
            let b = d.our_tid;
            let id = b[0] * 0x100_0000 + b[1] * 0x1_0000 + b[2] * 0x100 + b[3];
            &&& !d.closed ==> kept_in(rs, d, ingress, now).contains_key(id as u32)
            &&& k != id || d.closed ==> (kept_in(rs, d, ingress, now).contains_key(k)
                <==> rs.contains_key(k)) && (rs.contains_key(k) ==> kept_in(
                rs,
                d,
                ingress,
                now,
            )[k] == rs[k])
        }),
{
    let b = d.our_tid;
    assert(b[0] * 0x100_0000 + b[1] * 0x1_0000 + b[2] * 0x100 + b[3] <= 0xFFFF_FFFF);
}

/// A transaction id names an open dialogue exactly if it has four octets and the store
/// has a dialogue under the number that they write, highest octet first.
pub proof fn law_open_dialogue_is_named(rs: Records, dtid: Seq<u8>)
    ensures
        names_open(rs, dtid) <==> dtid.len() == 4 && rs.contains_key(
            (dtid[0] * 0x100_0000 + dtid[1] * 0x1_0000 + dtid[2] * 0x100 + dtid[3]) as u32,
        ),
{
}

/// The gauge counts by one each way, and an abort is counted once, under its own source.
pub proof fn law_dialogue_counts(g: i64, before: Metrics, after: Metrics, source: AbortSource, i: int)
    requires
        before.abort_counts@.len() == 3,
        abort_counted(before, after, source),
        0 <= i < 3,
    ensures
        g < i64::MAX ==> gauge_up(g) == g + 1,
        i64::MIN < g ==> gauge_down(g) == g - 1,
        after.abort_counts@.len() == 3,
        i == (match source {
            AbortSource::User => 0int,
            AbortSource::Provider => 1int,
            AbortSource::Local => 2int,
        }) ==> (before.abort_counts@[i] < u64::MAX ==> after.abort_counts@[i]
            == before.abort_counts@[i] + 1),
        i != (match source {
            AbortSource::User => 0int,
            AbortSource::Provider => 1int,
            AbortSource::Local => 2int,
        }) ==> after.abort_counts@[i] == before.abort_counts@[i],
        after.active == before.active,
        after.timeouts == before.timeouts,
{
}

// ── The store after each kind of message ────────────────────────────────────

/// After a handler answered a Begin: the units are those of the messages that it sent, in
/// order; the dialogue is stored if it is open, under the handler that answered; no other
/// dialogue is touched. A handler that sent nothing has its dialogue aborted.
pub proof fn law_answered_begin<H>(
    after: &DialogueEngine<H>,
    before: &DialogueEngine<H>,
    m: Metrics,
    m_after: Metrics,
    i: usize,
    d: DialogueModel,
    ingress: Seq<char>,
    now: u64,
    out: Seq<MsuModel>,
    id: u32,
    k: u32,
)
    requires
        after.answered(before, m, m_after, i, d, ingress, now, out),
        id_number(d.our_tid) == Some(id),
    ensures
        d.out.len() > 0 || d.closed ==> out == frames_of(d, d.addressing),
        d.out.len() > 0 && !d.closed ==> after.records().contains_key(id) && after.records()[id]
            == kept(d, ingress, now) && after.drivers().contains_key(id) && after.drivers()[id]
            == HandledBy::<H>::Registered(i),
        d.out.len() == 0 || d.closed ==> after.records() == before.records() && after.drivers()
            == before.drivers(),
        d.out.len() == 0 && !d.closed ==> m_after.abort_counts@ == m.abort_counts@.update(
            2,
            next(m.abort_counts@[2]),
        ) && m_after.active == m.active,
        d.out.len() > 0 || d.closed ==> m_after.abort_counts == m.abort_counts,
        k != id ==> (after.records().contains_key(k) <==> before.records().contains_key(k)) && (
        before.records().contains_key(k) ==> after.records()[k] == before.records()[k]),
{
}

/// After a peer's follow-up: a dialogue that the peer ended is gone, whatever its handler
/// sent; one that goes on is stored again under the handler that it had, on the
/// association that it came over at first, unless its handler closed it or sent nothing.
pub proof fn law_continued_dialogue<H>(
    after: &DialogueEngine<H>,
    before: &DialogueEngine<H>,
    m: Metrics,
    m_after: Metrics,
    dtid: Seq<u8>,
    is_end: bool,
    d: DialogueModel,
    now: u64,
    out: Seq<MsuModel>,
    id: u32,
    k: u32,
)
    requires
        after.continued(before, m, m_after, dtid, is_end, d, now, out),
        id_number(dtid) == Some(id),
        d.our_tid == dtid,
        before.records().contains_key(id),
    ensures
        is_end ==> out == frames_of(d, before.records()[id].addressing)
            && !after.records().contains_key(id) && !after.drivers().contains_key(id),
        !is_end && d.out.len() > 0 && !d.closed ==> after.records().contains_key(id)
            && after.records()[id] == kept(d, before.records()[id].ingress_assoc, now)
            && after.drivers().contains_key(id) && after.drivers()[id] == before.drivers()[id]
            && out == frames_of(d, d.addressing),
        !is_end && (d.out.len() == 0 || d.closed) ==> !after.records().contains_key(id)
            && !after.drivers().contains_key(id),
        k != id ==> (after.records().contains_key(k) <==> before.records().contains_key(k)) && (
        before.records().contains_key(k) ==> after.records()[k] == before.records()[k]),
{
}

/// After we opened a dialogue: its messages go out to where it is addressed, and it is
/// stored if it is open, under the handler that we gave it.
pub proof fn law_begun_dialogue<H>(
    after: &DialogueEngine<H>,
    before: &DialogueEngine<H>,
    m: Metrics,
    m_after: Metrics,
    addressing: AddressingModel,
    h: H,
    d: DialogueModel,
    ingress: Seq<char>,
    now: u64,
    out: Seq<MsuModel>,
    id: u32,
    k: u32,
)
    requires
        after.started(before, m, m_after, addressing, h, d, ingress, now, out),
        id_number(d.our_tid) == Some(id),
        m.active < i64::MAX,
    ensures
        out == frames_of(d, addressing),
        !d.closed ==> after.records().contains_key(id) && after.records()[id] == kept(
            d,
            ingress,
            now,
        ) && after.drivers().contains_key(id) && after.drivers()[id] == HandledBy::Own(h)
            && m_after.active == m.active + 1,
        d.closed ==> after.records() == before.records() && after.drivers() == before.drivers()
            && m_after == m,
        k != id ==> (after.records().contains_key(k) <==> before.records().contains_key(k)) && (
        before.records().contains_key(k) ==> after.records()[k] == before.records()[k]),
        m_after.abort_counts == m.abort_counts,
        m_after.timeouts == m.timeouts,
{
}

/// A Begin that we send takes a fresh id, and what becomes of it is stored as that of any
/// dialogue.
pub proof fn law_begin_takes_an_id<H>(
    after: &DialogueEngine<H>,
    before: &DialogueEngine<H>,
    m: Metrics,
    m_after: Metrics,
    addressing: AddressingModel,
    ingress: Seq<char>,
    now: u64,
    out: Seq<MsuModel>,
)
    requires
        after.begun(before, m, m_after, addressing, ingress, now, out),
    ensures
        before.counter() < u32::MAX ==> after.counter() == before.counter() + 1,
        before.counter() == u32::MAX ==> after.counter() == 0,
        m_after.abort_counts == m.abort_counts,
        m_after.timeouts == m.timeouts,
{
}

/// What a message does not concern stays: the handlers, the settings and the hosts.
pub proof fn law_setup_stays<H>(a: &DialogueEngine<H>, b: &DialogueEngine<H>, i: int)
    requires
        a.same_setup(b),
    ensures
        a.settings() == b.settings(),
        a.registered() == b.registered(),
        a.fallback() == b.fallback(),
        a.host_count() == b.host_count(),
        0 <= i < a.host_count() ==> a.host(i) == b.host(i),
{
}

/// A Begin that is accepted takes one id; no other message takes one. A message for a
/// dialogue that is not open changes nothing but, where it is an abort, the count of
/// aborts by a provider.
pub proof fn law_delivery_takes_ids_for_begins<H>(
    after: &DialogueEngine<H>,
    before: &DialogueEngine<H>,
    m: Metrics,
    m_after: Metrics,
    inbound: MsuModel,
    ingress: Seq<char>,
    now: u64,
    out: Seq<MsuModel>,
    u: MessageModel,
    t: TcModel,
)
    requires
        after.delivered(before, m, m_after, inbound, ingress, now, out),
        arriving(inbound) == Some((u, t)),
        before.counter() < u32::MAX,
        m.abort_counts@.len() == 3,
    ensures
        t.kind == TcKind::Begin && before.accepts(t, u) ==> after.counter() == before.counter() + 1,
        t.kind != TcKind::Begin || !before.accepts(t, u) ==> after.counter() == before.counter(),
        t.kind != TcKind::Begin && !names_open(before.records(), t.dtid) ==> {
            &&& out.len() == 0
            &&& after.records() == before.records()
            &&& after.drivers() == before.drivers()
            &&& t.kind != TcKind::Abort ==> m_after == m
            &&& t.kind == TcKind::Abort ==> m_after.abort_counts@[1] == next(m.abort_counts@[1])
                && m_after.abort_counts@[0] == m.abort_counts@[0] && m_after.abort_counts@[2]
                == m.abort_counts@[2] && m_after.active == m.active
        },
        (t.kind == TcKind::Abort || t.kind == TcKind::End) && names_open(before.records(), t.dtid)
            ==> !names_open(after.records(), t.dtid),
        t.kind == TcKind::Abort && names_open(before.records(), t.dtid) ==> {
            let id = id_number(t.dtid)->Some_0;
            &&& after.records() == before.records().remove(id)
            &&& after.drivers() == before.drivers().remove(id)
            &&& i64::MIN < m.active ==> m_after.active == m.active - 1
            &&& m_after.abort_counts@[1] == next(m.abort_counts@[1])
        },
{
}

/// Which messages concern the engine: a Begin that it accepts opens a dialogue, a Continue
/// or an End for an open one goes on with it.
pub proof fn law_messages_that_concern_the_engine<H>(
    e: &DialogueEngine<H>,
    inbound: MsuModel,
    u: MessageModel,
    t: TcModel,
)
    requires
        arriving(inbound) == Some((u, t)),
    ensures
        e.begun_by(inbound) is Some <==> t.kind == TcKind::Begin && e.accepts(t, u),
        e.begun_by(inbound) is Some ==> e.begun_by(inbound) == Some((u, t)),
        e.followed_by(inbound) is Some <==> (t.kind == TcKind::Continue || t.kind == TcKind::End)
            && names_open(e.records(), t.dtid),
        e.followed_by(inbound) is Some ==> e.followed_by(inbound) == Some(t),
{
}

/// The addressing of a dialogue that we open is that of its request.
pub proof fn law_request_is_addressed(r: OutgoingBegin)
    ensures
        r.addressing().out_called == r.called@,
        r.addressing().out_calling == r.calling@,
        r.addressing().opc == r.opc,
        r.addressing().dpc == r.dpc,
        r.addressing().ni == r.ni,
        r.addressing().sls == r.sls,
{
}

} // verus!
