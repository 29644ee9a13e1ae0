//! One step of a running node: what an association does with a received message,
//! how it goes down, and where replies and originated messages leave.
use crate::config::{Adaptation, TrafficMode};
use crate::metrics::Metrics;
use crate::mtp3::route::{egress_of, Destination, Egress};
use crate::routing::{decision_in, routed, Arrival, Decision, Inbound, RouteDecision, Router};
use crate::tenant::Runtimes;
use crate::transport::association::{
    answer_in, asp_after, asp_reaction, asp_step, audit_answer, controls, handle_ssnm, is_ssnm,
    kind_of, link_after, managed, manages_network, next_status, on_link_status, sg_reaction,
    sg_step, signal_kind, status_number, AspModel, AspReaction, AspState, LinkStatus, M2paState,
    Received, SgAction, SgModel, SignalKind,
};
use crate::transport::forward::{
    arrival_of, dispatch, dispatch_counted, dispatch_moved, dispatched, frame_for, frame_models, frame_of, framed, sccp_part, send_via, sent_via,
    view_for, Frame, FrameModel, Outcome, OutcomeModel,
};
use crate::transport::framing::{msu_of_m2pa, unit_of_m2pa};
use crate::transport::msu::{Msu, MsuModel};
use crate::transport::registry::{carrying, server_of, AssocSlot, Registry};
use crate::transport::wire::{m2pa_decode, m2pa_decoded, m2pa_outcome, Control, ControlModel, M2paFrame, M2paModel};
use vstd::prelude::*;

verus! {

/// The lifecycle state of an association's adaptation layer.
#[derive(Clone, Copy, PartialEq, Eq, Structural, Debug)]
pub enum LinkState {
    /// The association is not established.
    Down,
    /// Established, the adaptation not yet active.
    Inactive,
    /// Active and carrying traffic.
    Active,
}

/// The lifecycle state of a slot.
pub open spec fn lifecycle(s: AssocSlot) -> LinkState {
    if s.carries() {
        LinkState::Active
    } else if s.connected {
        LinkState::Inactive
    } else {
        LinkState::Down
    }
}

/// The lifecycle state of a slot.
pub fn link_state(slot: &AssocSlot) -> (r: LinkState)
    ensures
        r == lifecycle(*slot),
{
    if slot.is_carrying() {
        LinkState::Active
    } else if slot.connected {
        LinkState::Inactive
    } else {
        LinkState::Down
    }
}

/// What an association does on a message: the control messages to send, and what
/// became of the payload it delivered.
pub struct Reaction {
    pub replies: Vec<Control>,
    pub outcome: Option<Outcome>,
}

/// What an optional outcome says.
pub open spec fn outcome_of(o: Option<Outcome>) -> Option<OutcomeModel> {
    match o {
        Some(x) => Some(x@),
        None => None,
    }
}

/// The registry changed only in one slot, which became `slot` if it is there.
pub open spec fn slot_became(
    before: Registry,
    after: Registry,
    id: Seq<char>,
    slot: AssocSlot,
) -> bool {
    &&& after.slots() == if before.slots().contains_key(id) {
        before.slots().insert(id, slot)
    } else {
        before.slots()
    }
    &&& after.servers() == before.servers()
    &&& after.linkset_list() == before.linkset_list()
    &&& after.tenant_id() == before.tenant_id()
    &&& after.var() == before.var()
}

/// Two registries hold the same.
pub open spec fn same_registry(a: Registry, b: Registry) -> bool {
    &&& a.slots() == b.slots()
    &&& a.servers() == b.servers()
    &&& a.linkset_list() == b.linkset_list()
    &&& a.tenant_id() == b.tenant_id()
    &&& a.var() == b.var()
}

/// Marks an association active or inactive, and recomputes what is available.
pub fn set_active(
    registry: &mut Registry,
    router: &mut Router,
    m: &mut Metrics,
    assoc_id: &str,
    on: bool,
)
    requires
        old(registry).wf(),
        old(router).wf(),
        old(m).wf(),
    ensures
        final(registry).wf(),
        final(router).wf(),
        final(m).wf(),
        slot_became(
            *old(registry),
            *final(registry),
            assoc_id@,
            AssocSlot { active: on, ..old(registry).slots()[assoc_id@] },
        ),
        final(registry).refreshed(
            old(router).runtimes(),
            final(router).runtimes(),
            *old(m),
            *final(m),
        ),
{
    match registry.slot_mut(assoc_id) {
        Some(slot) => {
            slot.set_active(on);
        },
        None => {},
    }
    registry.recompute(router, m);
}

/// Marks an association established. It carries nothing yet, so nothing else
/// changes.
pub fn connected(registry: &mut Registry, assoc_id: &str)
    requires
        old(registry).wf(),
    ensures
        final(registry).wf(),
        slot_became(
            *old(registry),
            *final(registry),
            assoc_id@,
            AssocSlot { connected: true, ..old(registry).slots()[assoc_id@] },
        ),
{
    match registry.slot_mut(assoc_id) {
        Some(slot) => {
            slot.set_sender();
        },
        None => {},
    }
}

/// Takes an association down when it ends, and recomputes what is available.
pub fn disconnect(registry: &mut Registry, router: &mut Router, m: &mut Metrics, assoc_id: &str)
    requires
        old(registry).wf(),
        old(router).wf(),
        old(m).wf(),
    ensures
        final(registry).wf(),
        final(router).wf(),
        final(m).wf(),
        slot_became(
            *old(registry),
            *final(registry),
            assoc_id@,
            AssocSlot { active: false, connected: false, ..old(registry).slots()[assoc_id@] },
        ),
        final(registry).refreshed(
            old(router).runtimes(),
            final(router).runtimes(),
            *old(m),
            *final(m),
        ),
{
    match registry.slot_mut(assoc_id) {
        Some(slot) => {
            slot.set_active(false);
            slot.clear_sender();
        },
        None => {},
    }
    registry.recompute(router, m);
}

/// What a delivered unit became.
pub open spec fn delivery(ts: Runtimes, g: &Registry, unit: Option<MsuModel>, assoc: Seq<char>) -> Option<
    OutcomeModel,
> {
    match unit {
        Some(u) => Some(
            dispatched(
                ts,
                g,
                u,
                sccp_part(u),
                view_for(ts, g.tenant_id(), sccp_part(u)),
                assoc,
            ),
        ),
        None => None,
    }
}

/// What delivering a unit changes: what its dispatch changes, and nothing where
/// there is none.
pub open spec fn delivered(
    before: Router,
    after: Router,
    m: Metrics,
    n: Metrics,
    g: &Registry,
    unit: Option<MsuModel>,
    assoc: Seq<char>,
) -> bool {
    let ts = before.runtimes();
    match unit {
        Some(u) => {
            let view = view_for(ts, g.tenant_id(), sccp_part(u));
            let arrival = arrival_of(u, sccp_part(u), view);
            &&& dispatch_counted(
                m,
                n,
                ts,
                g.tenant_id(),
                u,
                arrival,
                dispatched(ts, g, u, sccp_part(u), view, assoc),
            )
            &&& dispatch_moved(before, after, g.tenant_id(), u, arrival)
        },
        None => after == before && n == m,
    }
}

/// The unit of a received message, if it carries one.
pub open spec fn unit_in(r: Received) -> Option<MsuModel> {
    match r.unit {
        Ok(u) => Some(u@),
        Err(_) => None,
    }
}

/// The reply of a gateway-side reaction.
pub open spec fn reply_of(a: SgModel) -> Seq<ControlModel> {
    match a {
        SgModel::Reply(c) => seq![c],
        _ => Seq::empty(),
    }
}

fn no_controls() -> (r: Vec<Control>)
    ensures
        controls(r@) == Seq::<ControlModel>::empty(),
{
    let v: Vec<Control> = Vec::new();
    proof {
        assert(controls(v@) =~= Seq::<ControlModel>::empty());
    }
    v
}

fn one_control(c: Control) -> (r: Vec<Control>)
    ensures
        controls(r@) == seq![c@],
{
    let mut v: Vec<Control> = Vec::new();
    v.push(c);
    proof {
        assert(controls(v@) =~= seq![c@]);
    }
    v
}

/// The gateway side of an M3UA or SUA association receives a message: it answers
/// network management and the handshake, and delivers payload from an active peer.
/// When the peer's state changes, what is available is recomputed.
pub fn sg_receive(
    state: &mut AspState,
    adaptation: Adaptation,
    registry: &mut Registry,
    router: &mut Router,
    m: &mut Metrics,
    assoc_id: &str,
    received: Received,
) -> (r: Reaction)
    requires
        old(registry).wf(),
        old(router).wf(),
        old(m).wf(),
    ensures
        final(registry).wf(),
        final(router).wf(),
        final(m).wf(),
        ({
            let k = signal_kind(adaptation, received.signal.class, received.signal.kind);
            let rc = received.signal.routing_context;
            let ts = old(router).runtimes();
            if manages_network(k) {
                &&& *final(state) == *old(state)
                &&& same_registry(*final(registry), *old(registry))
                &&& r.outcome is None
                &&& controls(r.replies@) == if k == SignalKind::Daud {
                    audit_answer(ts, old(registry).tenant_id(), received.signal.affected@, rc)
                } else {
                    Seq::empty()
                }
                &&& managed(
                    *old(router),
                    *final(router),
                    *old(m),
                    *final(m),
                    old(registry).tenant_id(),
                    old(registry).var(),
                    k,
                    received.signal.affected@,
                )
            } else {
                let a = sg_reaction(*old(state), k, rc);
                &&& *final(state) == asp_after(*old(state), k)
                &&& controls(r.replies@) == reply_of(a)
                &&& outcome_of(r.outcome) == delivery(
                    ts,
                    old(registry),
                    if a is Deliver {
                        unit_in(received)
                    } else {
                        None
                    },
                    assoc_id@,
                )
                &&& if *final(state) == *old(state) {
                    &&& same_registry(*final(registry), *old(registry))
                    &&& delivered(
                        *old(router),
                        *final(router),
                        *old(m),
                        *final(m),
                        old(registry),
                        if a is Deliver {
                            unit_in(received)
                        } else {
                            None
                        },
                        assoc_id@,
                    )
                } else {
                    &&& slot_became(
                        *old(registry),
                        *final(registry),
                        assoc_id@,
                        AssocSlot {
                            active: *final(state) == AspState::Active,
                            ..old(registry).slots()[assoc_id@]
                        },
                    )
                    &&& final(registry).refreshed(ts, final(router).runtimes(), *old(m), *final(m))
                }
            }
        }),
{
    let kind = kind_of(adaptation, received.signal.class, received.signal.kind);
    if is_ssnm(kind) {
        let replies = handle_ssnm(
            router,
            m,
            registry.tenant(),
            registry.variant(),
            kind,
            &received.signal.affected,
            received.signal.routing_context,
        );
        return Reaction { replies, outcome: None };
    }
    let before: AspState = *state;
    let (after, action) = sg_step(before, kind, received.signal.routing_context);
    *state = after;
    let mut outcome: Option<Outcome> = None;
    let replies = match action {
        SgAction::Reply(c) => one_control(c),
        SgAction::Deliver => {
            match received.unit {
                Ok(unit) => {
                    outcome = Some(dispatch(router, registry, m, unit, assoc_id));
                },
                Err(_) => {},
            }
            no_controls()
        },
        SgAction::Ignore => no_controls(),
    };
    if before != after {
        set_active(registry, router, m, assoc_id, after == AspState::Active);
    }
    Reaction { replies, outcome }
}

/// The control message of an ASP's reaction.
pub open spec fn sent_by(a: AspModel) -> Seq<ControlModel> {
    match a {
        AspModel::Send(c) => seq![c],
        _ => Seq::empty(),
    }
}

/// The ASP side of an M3UA or SUA association receives a message: it goes on with
/// its handshake, answers heartbeats and network management, and delivers payload
/// while it carries traffic. When it becomes active or inactive, what is available
/// is recomputed.
pub fn asp_receive(
    membership: Option<(u32, TrafficMode)>,
    adaptation: Adaptation,
    registry: &mut Registry,
    router: &mut Router,
    m: &mut Metrics,
    assoc_id: &str,
    received: Received,
) -> (r: Reaction)
    requires
        old(registry).wf(),
        old(router).wf(),
        old(m).wf(),
    ensures
        final(registry).wf(),
        final(router).wf(),
        final(m).wf(),
        ({
            let k = signal_kind(adaptation, received.signal.class, received.signal.kind);
            let rc = received.signal.routing_context;
            let ts = old(router).runtimes();
            let a = asp_reaction(k, membership, carrying(old(registry).slots(), assoc_id@));
            &&& a is Manage ==> {
                &&& same_registry(*final(registry), *old(registry))
                &&& r.outcome is None
                &&& controls(r.replies@) == if k == SignalKind::Daud {
                    audit_answer(ts, old(registry).tenant_id(), received.signal.affected@, rc)
                } else {
                    Seq::empty()
                }
                &&& managed(
                    *old(router),
                    *final(router),
                    *old(m),
                    *final(m),
                    old(registry).tenant_id(),
                    old(registry).var(),
                    k,
                    received.signal.affected@,
                )
            }
            &&& !(a is Manage) ==> controls(r.replies@) == sent_by(a) && outcome_of(r.outcome)
                == delivery(
                ts,
                old(registry),
                if a is Deliver {
                    unit_in(received)
                } else {
                    None
                },
                assoc_id@,
            )
            &&& a is Activate || a is Deactivate ==> slot_became(
                *old(registry),
                *final(registry),
                assoc_id@,
                AssocSlot { active: a is Activate, ..old(registry).slots()[assoc_id@] },
            ) && final(registry).refreshed(ts, final(router).runtimes(), *old(m), *final(m))
            &&& !(a is Activate || a is Deactivate) ==> same_registry(
                *final(registry),
                *old(registry),
            )
            &&& a is Send || a is Ignore || a is Deliver ==> delivered(
                *old(router),
                *final(router),
                *old(m),
                *final(m),
                old(registry),
                if a is Deliver {
                    unit_in(received)
                } else {
                    None
                },
                assoc_id@,
            )
        }),
{
    let kind = kind_of(adaptation, received.signal.class, received.signal.kind);
    let carries = match registry.slot(assoc_id) {
        Some(s) => s.is_carrying(),
        None => false,
    };
    let mut outcome: Option<Outcome> = None;
    let replies = match asp_step(kind, membership, carries) {
        AspReaction::Send(c) => one_control(c),
        AspReaction::Activate => {
            set_active(registry, router, m, assoc_id, true);
            no_controls()
        },
        AspReaction::Deactivate => {
            set_active(registry, router, m, assoc_id, false);
            no_controls()
        },
        AspReaction::Deliver => {
            match received.unit {
                Ok(unit) => {
                    outcome = Some(dispatch(router, registry, m, unit, assoc_id));
                },
                Err(_) => {},
            }
            no_controls()
        },
        AspReaction::Manage => handle_ssnm(
            router,
            m,
            registry.tenant(),
            registry.variant(),
            kind,
            &received.signal.affected,
            received.signal.routing_context,
        ),
        AspReaction::Ignore => no_controls(),
    };
    Reaction { replies, outcome }
}

/// What a link does on a message: the status to send, and what became of the
/// payload it delivered.
pub struct LinkReaction {
    pub status: Option<LinkStatus>,
    pub outcome: Option<Outcome>,
}

/// The unit that a link delivers: the one in user data, while the link carries
/// traffic.
pub open spec fn carried_unit(
    g: &Registry,
    d: Result<M2paModel, Seq<char>>,
    assoc: Seq<char>,
) -> Option<MsuModel> {
    match unit_of_m2pa(d) {
        Ok(Some(u)) => if carrying(g.slots(), assoc) {
            Some(u)
        } else {
            None
        },
        _ => None,
    }
}

/// A link receives a decoded M2PA message: a status advances its alignment, and
/// user data is delivered while it carries traffic. When its state changes, what
/// is available is recomputed.
pub fn link_receive(
    state: &mut M2paState,
    registry: &mut Registry,
    router: &mut Router,
    m: &mut Metrics,
    assoc_id: &str,
    frame: Result<M2paFrame, String>,
) -> (r: LinkReaction)
    requires
        old(registry).wf(),
        old(router).wf(),
        old(m).wf(),
    ensures
        final(registry).wf(),
        final(router).wf(),
        final(m).wf(),
        match m2pa_outcome(frame) {
            Ok(M2paModel::LinkStatus { state: n, .. }) => {
                &&& r.outcome is None
                &&& !(1 <= n <= 9) ==> *final(state) == *old(state) && r.status is None
                &&& forall|s: LinkStatus|
                    status_number(s) == n ==> *final(state) == #[trigger] link_after(*old(state), s)
                        && r.status == answer_in(*final(state))
                &&& *final(state) == *old(state) ==> same_registry(
                    *final(registry),
                    *old(registry),
                ) && *final(router) == *old(router) && *final(m) == *old(m)
                &&& *final(state) != *old(state) ==> slot_became(
                    *old(registry),
                    *final(registry),
                    assoc_id@,
                    AssocSlot {
                        active: *final(state) == M2paState::InService,
                        ..old(registry).slots()[assoc_id@]
                    },
                ) && final(registry).refreshed(
                    old(router).runtimes(),
                    final(router).runtimes(),
                    *old(m),
                    *final(m),
                )
            },
            d => {
                &&& *final(state) == *old(state)
                &&& r.status is None
                &&& same_registry(*final(registry), *old(registry))
                &&& outcome_of(r.outcome) == delivery(
                    old(router).runtimes(),
                    old(registry),
                    carried_unit(old(registry), d, assoc_id@),
                    assoc_id@,
                )
                &&& delivered(
                    *old(router),
                    *final(router),
                    *old(m),
                    *final(m),
                    old(registry),
                    carried_unit(old(registry), d, assoc_id@),
                    assoc_id@,
                )
            },
        },
{
    match frame {
        Ok(M2paFrame::LinkStatus { state: n, .. }) => {
            match LinkStatus::from_number(n) {
                Some(status) => {
                    let before: M2paState = *state;
                    let after: M2paState = on_link_status(before, status);
                    *state = after;
                    if before != after {
                        set_active(registry, router, m, assoc_id, after == M2paState::InService);
                    }
                    proof {
                        assert forall|s: LinkStatus| status_number(s) == n implies s == status by {}
                    }
                    LinkReaction { status: next_status(after), outcome: None }
                },
                None => LinkReaction { status: None, outcome: None },
            }
        },
        other => {
            let carries = match registry.slot(assoc_id) {
                Some(s) => s.is_carrying(),
                None => false,
            };
            let outcome = match msu_of_m2pa(other) {
                Ok(Some(unit)) => {
                    if carries {
                        Some(dispatch(router, registry, m, unit, assoc_id))
                    } else {
                        None
                    }
                },
                _ => None,
            };
            LinkReaction { status: None, outcome }
        },
    }
}

/// Decodes an M2PA message for [`link_receive`].
pub fn receive_m2pa(bytes: &[u8]) -> (r: Result<M2paFrame, String>)
    ensures
        m2pa_outcome(r) == m2pa_decoded(bytes@),
{
    m2pa_decode(bytes)
}

// ── Replies and originated messages ─────────────────────────────────────────

/// The egress of a message that we originate: routed by its point code like any
/// transit message.
pub open spec fn egress_for(ts: Runtimes, tenant: Seq<char>, dpc: u32) -> Option<Egress> {
    match decision_in(ts, tenant, Arrival { dpc, cdpa: None, called_ssn: None, view: None }) {
        Decision::Route { via } => Some(via),
        Decision::RouteTo { dpc: d, ssn, via } => via,
        _ => None,
    }
}

/// The egress of a message that we originate. `None` if its point code has no
/// route, or is our own.
pub fn resolve_egress(router: &mut Router, m: &mut Metrics, tenant: &str, dpc: u32) -> (r: Option<
    Destination,
>)
    requires
        old(router).wf(),
        old(m).wf(),
    ensures
        final(router).wf(),
        final(m).wf(),
        egress_of(r) == egress_for(old(router).runtimes(), tenant@, dpc),
        routed(
            *old(router),
            *final(router),
            *old(m),
            *final(m),
            tenant@,
            Arrival { dpc, cdpa: None, called_ssn: None, view: None },
        ),
{
    let inbound = Inbound { dpc, cdpa: None, called_ssn: None, view: None };
    match router.route_in(m, tenant, &inbound) {
        RouteDecision::Route { via } => Some(via),
        RouteDecision::RouteTo { dpc: _, ssn: _, via } => via,
        _ => None,
    }
}

/// The frame of a reply on an association: none if the association is unknown or
/// not established, or the reply cannot be framed for it.
pub open spec fn reply_frame(g: &Registry, assoc: Seq<char>, m: MsuModel) -> Option<FrameModel> {
    if g.slots().contains_key(assoc) && g.slots()[assoc].connected {
        framed(
            m,
            assoc,
            g.slots()[assoc].adaptation,
            match server_of(g.servers(), assoc, 0) {
                Some(e) => Some(e.routing_context),
                None => None,
            },
        )
    } else {
        None
    }
}

/// Frames a reply for the association it leaves on, with the routing context of
/// the server that the association belongs to.
pub fn send_reply(registry: &Registry, assoc_id: &str, msu: &Msu) -> (r: Option<Frame>)
    requires
        registry.wf(),
    ensures
        frame_of(r) == reply_frame(registry, assoc_id@, msu@),
{
    match registry.slot(assoc_id) {
        Some(slot) => {
            if !slot.connected {
                return None;
            }
            let rc = match registry.as_membership(assoc_id) {
                Some((c, _)) => Some(c),
                None => None,
            };
            frame_for(msu, assoc_id, slot.adaptation, rc)
        },
        None => None,
    }
}

/// The frames of an originated message: to the egress its point code resolves to.
pub open spec fn originated_frames(ts: Runtimes, g: &Registry, m: MsuModel) -> Seq<FrameModel> {
    match egress_for(ts, g.tenant_id(), m.dpc) {
        Some(via) => sent_via(g, via, m),
        None => Seq::empty(),
    }
}

/// Frames an originated message for the egress its point code resolves to.
pub fn send_originated(registry: &Registry, router: &mut Router, m: &mut Metrics, msu: &Msu) -> (r:
    Vec<Frame>)
    requires
        registry.wf(),
        old(router).wf(),
        old(m).wf(),
    ensures
        final(router).wf(),
        final(m).wf(),
        frame_models(r@) == originated_frames(old(router).runtimes(), registry, msu@),
        routed(
            *old(router),
            *final(router),
            *old(m),
            *final(m),
            registry.tenant_id(),
            Arrival { dpc: msu.dpc, cdpa: None, called_ssn: None, view: None },
        ),
{
    match resolve_egress(router, m, registry.tenant(), msu.dpc) {
        Some(via) => send_via(registry, &via, msu),
        None => {
            let none: Vec<Frame> = Vec::new();
            proof {
                assert(frame_models(none@) =~= Seq::<FrameModel>::empty());
            }
            none
        },
    }
}

/// The frames of an abort for a dialogue that was aged out: on the association the
/// dialogue arrived on, or by point code for one that we originated.
pub open spec fn abort_frames(ts: Runtimes, g: &Registry, assoc: Seq<char>, m: MsuModel) -> Seq<
    FrameModel,
> {
    if assoc.len() > 0 && g.slots().contains_key(assoc) {
        match reply_frame(g, assoc, m) {
            Some(f) => seq![f],
            None => Seq::empty(),
        }
    } else {
        originated_frames(ts, g, m)
    }
}

/// Frames an abort for a dialogue that was aged out.
pub fn send_sweep_abort(
    registry: &Registry,
    router: &mut Router,
    m: &mut Metrics,
    assoc_id: &str,
    msu: &Msu,
) -> (r: Vec<Frame>)
    requires
        registry.wf(),
        old(router).wf(),
        old(m).wf(),
    ensures
        final(router).wf(),
        final(m).wf(),
        frame_models(r@) == abort_frames(old(router).runtimes(), registry, assoc_id@, msu@),
        if assoc_id@.len() > 0 && registry.slots().contains_key(assoc_id@) {
            *final(router) == *old(router) && *final(m) == *old(m)
        } else {
            routed(
                *old(router),
                *final(router),
                *old(m),
                *final(m),
                registry.tenant_id(),
                Arrival { dpc: msu.dpc, cdpa: None, called_ssn: None, view: None },
            )
        },
{
    if !assoc_id.is_empty() && registry.slot(assoc_id).is_some() {
        let mut out: Vec<Frame> = Vec::new();
        match send_reply(registry, assoc_id, msu) {
            Some(f) => {
                out.push(f);
                proof {
                    assert(frame_models(out@) =~= seq![f@]);
                }
            },
            None => {
                proof {
                    assert(frame_models(out@) =~= Seq::<FrameModel>::empty());
                }
            },
        }
        out
    } else {
        send_originated(registry, router, m, msu)
    }
}

/// Every reply on an established M3UA or M2PA association is framed: a peer that
/// asked is answered.
pub proof fn law_reply_is_framed(g: &Registry, assoc: Seq<char>, m: MsuModel)
    requires
        g.slots().contains_key(assoc),
        g.slots()[assoc].connected,
        g.slots()[assoc].adaptation != Adaptation::Sua,
    ensures
        reply_frame(g, assoc, m) is Some,
{
}

} // verus!
