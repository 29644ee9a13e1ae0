//! The association state machines: M3UA and SUA on either side, and M2PA links.
//! Each step takes what arrived and says what to send and what changed.
use crate::config::{Adaptation, TrafficMode};
use crate::metrics::{gauge, Metrics};
use crate::mtp3::route::{Availability, Mtp3Event, Mtp3Status};
use crate::point_code::{largest, PointCode, Variant};
use crate::routing::{
    destination, event_counted, gauges_refreshed, state_became, state_became_twice, Router,
};
use crate::tenant::{Runtimes, TenantRuntime};
use crate::transport::framing::{
    msu_of_m3ua, msu_of_sua, unit_of_m3ua, unit_of_sua, IDLE_SEQUENCE,
};
use crate::transport::msu::{msu_outcome, Msu, TransportError};
use crate::transport::wire::{
    is_link_status, m2pa_decoded, m2pa_status, m2pa_status_octets, m3ua_decode, m3ua_decoded,
    sua_decode, sua_decoded, Control, ControlModel, M3uaFrame, SuaFrame,
};
use vstd::prelude::*;

verus! {

// ── What a message signals ──────────────────────────────────────────────────

/// What the state machines read of an M3UA or SUA message.
#[derive(Clone, Debug, PartialEq, Eq)]
pub struct Signal {
    /// The message class.
    pub class: u8,
    /// The message type within its class.
    pub kind: u8,
    /// The routing context.
    pub routing_context: Option<u32>,
    /// The affected point codes.
    pub affected: Vec<u32>,
}

/// A message type by its class and type numbers, which M3UA and SUA share.
#[derive(Clone, Copy, PartialEq, Eq, Structural, Debug)]
pub enum SignalKind {
    Notify,
    Data,
    Duna,
    Dava,
    Daud,
    Scon,
    Dupu,
    Drst,
    AspUp,
    AspDown,
    Heartbeat,
    AspUpAck,
    AspDownAck,
    HeartbeatAck,
    AspActive,
    AspInactive,
    AspActiveAck,
    AspInactiveAck,
    Other,
}

/// The message type of a class and type number. The payload messages are class 1
/// type 1 in M3UA, and class 7 types 1 and 2 in SUA.
pub open spec fn signal_kind(adaptation: Adaptation, class: u8, kind: u8) -> SignalKind {
    if class == 0 && kind == 1 {
        SignalKind::Notify
    } else if adaptation == Adaptation::M3ua && class == 1 && kind == 1 {
        SignalKind::Data
    } else if adaptation == Adaptation::Sua && class == 7 && (kind == 1 || kind == 2) {
        SignalKind::Data
    } else if class == 2 && kind == 1 {
        SignalKind::Duna
    } else if class == 2 && kind == 2 {
        SignalKind::Dava
    } else if class == 2 && kind == 3 {
        SignalKind::Daud
    } else if class == 2 && kind == 4 {
        SignalKind::Scon
    } else if class == 2 && kind == 5 {
        SignalKind::Dupu
    } else if class == 2 && kind == 6 {
        SignalKind::Drst
    } else if class == 3 && kind == 1 {
        SignalKind::AspUp
    } else if class == 3 && kind == 2 {
        SignalKind::AspDown
    } else if class == 3 && kind == 3 {
        SignalKind::Heartbeat
    } else if class == 3 && kind == 4 {
        SignalKind::AspUpAck
    } else if class == 3 && kind == 5 {
        SignalKind::AspDownAck
    } else if class == 3 && kind == 6 {
        SignalKind::HeartbeatAck
    } else if class == 4 && kind == 1 {
        SignalKind::AspActive
    } else if class == 4 && kind == 2 {
        SignalKind::AspInactive
    } else if class == 4 && kind == 3 {
        SignalKind::AspActiveAck
    } else if class == 4 && kind == 4 {
        SignalKind::AspInactiveAck
    } else {
        SignalKind::Other
    }
}

/// The message type of a class and type number.
pub fn kind_of(adaptation: Adaptation, class: u8, kind: u8) -> (r: SignalKind)
    ensures
        r == signal_kind(adaptation, class, kind),
{
    match (class, kind) {
        (0, 1) => SignalKind::Notify,
        (1, 1) => {
            if adaptation == Adaptation::M3ua {
                SignalKind::Data
            } else {
                SignalKind::Other
            }
        },
        (7, 1) => {
            if adaptation == Adaptation::Sua {
                SignalKind::Data
            } else {
                SignalKind::Other
            }
        },
        (7, 2) => {
            if adaptation == Adaptation::Sua {
                SignalKind::Data
            } else {
                SignalKind::Other
            }
        },
        (2, 1) => SignalKind::Duna,
        (2, 2) => SignalKind::Dava,
        (2, 3) => SignalKind::Daud,
        (2, 4) => SignalKind::Scon,
        (2, 5) => SignalKind::Dupu,
        (2, 6) => SignalKind::Drst,
        (3, 1) => SignalKind::AspUp,
        (3, 2) => SignalKind::AspDown,
        (3, 3) => SignalKind::Heartbeat,
        (3, 4) => SignalKind::AspUpAck,
        (3, 5) => SignalKind::AspDownAck,
        (3, 6) => SignalKind::HeartbeatAck,
        (4, 1) => SignalKind::AspActive,
        (4, 2) => SignalKind::AspInactive,
        (4, 3) => SignalKind::AspActiveAck,
        (4, 4) => SignalKind::AspInactiveAck,
        _ => SignalKind::Other,
    }
}

/// A network-management message.
pub open spec fn manages_network(k: SignalKind) -> bool {
    k == SignalKind::Duna || k == SignalKind::Dava || k == SignalKind::Daud || k
        == SignalKind::Scon || k == SignalKind::Dupu || k == SignalKind::Drst
}

/// Whether a message type is one of network management, which the ASP state
/// machine does not itself handle.
pub fn is_ssnm(kind: SignalKind) -> (r: bool)
    ensures
        r == manages_network(kind),
{
    match kind {
        SignalKind::Duna => true,
        SignalKind::Dava => true,
        SignalKind::Daud => true,
        SignalKind::Scon => true,
        SignalKind::Dupu => true,
        SignalKind::Drst => true,
        _ => false,
    }
}

/// A received message: what it signals, and the unit it carries or why it carries
/// none.
pub struct Received {
    pub signal: Signal,
    pub unit: Result<Msu, TransportError>,
}

/// What a decoded M3UA message is received as.
pub fn received_m3ua(frame: M3uaFrame) -> (r: Received)
    ensures
        r.signal.class == frame.class,
        r.signal.kind == frame.kind,
        r.signal.routing_context == frame.routing_context,
        r.signal.affected@ == frame.affected@,
        msu_outcome(r.unit) == unit_of_m3ua(Ok(frame@)),
{
    let affected = copy_codes(&frame.affected);
    let signal = Signal {
        class: frame.class,
        kind: frame.kind,
        routing_context: frame.routing_context,
        affected,
    };
    Received { signal, unit: msu_of_m3ua(Ok(frame)) }
}

/// What a decoded SUA message is received as.
pub fn received_sua(frame: SuaFrame, node_pc: u32, node_ni: u8) -> (r: Received)
    ensures
        r.signal.class == frame.class,
        r.signal.kind == frame.kind,
        r.signal.routing_context == frame.routing_context,
        r.signal.affected@ == frame.affected@,
        msu_outcome(r.unit) == unit_of_sua(Ok(frame@), node_pc, node_ni),
{
    let affected = copy_codes(&frame.affected);
    let signal = Signal {
        class: frame.class,
        kind: frame.kind,
        routing_context: frame.routing_context,
        affected,
    };
    Received { signal, unit: msu_of_sua(Ok(frame), node_pc, node_ni) }
}

/// Receives an M3UA message. `None` if it does not decode.
pub fn receive_m3ua(bytes: &[u8]) -> (r: Option<Received>)
    ensures
        match m3ua_decoded(bytes@) {
            Ok(f) => r matches Some(x) && x.signal.class == f.class && x.signal.kind == f.kind
                && x.signal.routing_context == f.routing_context && x.signal.affected@ == f.affected
                && msu_outcome(x.unit) == unit_of_m3ua(Ok(f)),
            Err(_) => r is None,
        },
{
    match m3ua_decode(bytes) {
        Ok(f) => Some(received_m3ua(f)),
        Err(_) => None,
    }
}

/// Receives a SUA message. `None` if it does not decode.
pub fn receive_sua(bytes: &[u8], node_pc: u32, node_ni: u8) -> (r: Option<Received>)
    ensures
        match sua_decoded(bytes@) {
            Ok(f) => r matches Some(x) && x.signal.class == f.class && x.signal.kind == f.kind
                && x.signal.routing_context == f.routing_context && x.signal.affected@ == f.affected
                && msu_outcome(x.unit) == unit_of_sua(Ok(f), node_pc, node_ni),
            Err(_) => r is None,
        },
{
    match sua_decode(bytes) {
        Ok(f) => Some(received_sua(f, node_pc, node_ni)),
        Err(_) => None,
    }
}

fn copy_codes(v: &Vec<u32>) -> (r: Vec<u32>)
    ensures
        r@ == v@,
{
    let mut out: Vec<u32> = Vec::new();
    let mut i: usize = 0;
    while i < v.len()
        invariant
            i <= v@.len(),
            out@ == v@.subrange(0, i as int),
        decreases v.len() - i,
    {
        out.push(v[i]);
        proof {
            assert(out@ =~= v@.subrange(0, i + 1));
        }
        i += 1;
    }
    proof {
        assert(out@ =~= v@);
    }
    out
}

// ── Network management ──────────────────────────────────────────────────────

/// The event that a network-management message is for one affected point code,
/// if it is one and the point code fits the variant: unavailable pauses,
/// available and restricted resume, congestion sets level 1.
pub open spec fn event_of(k: SignalKind, pc: u32, variant: Variant) -> Option<Mtp3Event> {
    let affected = PointCode { value: pc, variant };
    if pc > largest(variant) {
        None
    } else if k == SignalKind::Duna {
        Some(Mtp3Event::Pause { affected })
    } else if k == SignalKind::Dava || k == SignalKind::Drst {
        Some(Mtp3Event::Resume { affected })
    } else if k == SignalKind::Scon {
        Some(Mtp3Event::Status { affected, status: Mtp3Status::Congested { level: 1 } })
    } else {
        None
    }
}

/// The availability after the events of the first `n` affected point codes.
pub open spec fn availability_after(
    k: SignalKind,
    pcs: Seq<u32>,
    variant: Variant,
    n: int,
    a: Availability,
) -> Availability
    decreases n,
{
    if n <= 0 {
        a
    } else {
        let before = availability_after(k, pcs, variant, n - 1, a);
        match event_of(k, pcs[n - 1], variant) {
            Some(e) => before.after(e),
            None => before,
        }
    }
}

/// The management events after counting those of the first `n` affected point
/// codes.
pub open spec fn events_after(
    k: SignalKind,
    pcs: Seq<u32>,
    variant: Variant,
    n: int,
    c: Map<(u32, Seq<char>), u64>,
) -> Map<(u32, Seq<char>), u64>
    decreases n,
{
    if n <= 0 {
        c
    } else {
        let before = events_after(k, pcs, variant, n - 1, c);
        match event_of(k, pcs[n - 1], variant) {
            Some(e) => event_counted(before, e),
            None => before,
        }
    }
}

/// The tenant can reach the point code now.
pub open spec fn reaches(ts: Runtimes, tenant: Seq<char>, pc: u32) -> bool {
    ts.contains_key(tenant) && destination(&ts[tenant], pc) is Some
}

/// Those of the first `n` point codes that can be reached, or those that cannot.
pub open spec fn sorted_out(ts: Runtimes, tenant: Seq<char>, pcs: Seq<u32>, n: int, reached: bool) -> Seq<
    u32,
>
    decreases n,
{
    if n <= 0 {
        Seq::empty()
    } else {
        let before = sorted_out(ts, tenant, pcs, n - 1, reached);
        if reaches(ts, tenant, pcs[n - 1]) == reached {
            before.push(pcs[n - 1])
        } else {
            before
        }
    }
}

/// The answer to an audit: available for the point codes that can be reached,
/// unavailable for the others, and nothing for an empty list.
pub open spec fn audit_answer(
    ts: Runtimes,
    tenant: Seq<char>,
    pcs: Seq<u32>,
    routing_context: Option<u32>,
) -> Seq<ControlModel> {
    let avail = sorted_out(ts, tenant, pcs, pcs.len() as int, true);
    let unavail = sorted_out(ts, tenant, pcs, pcs.len() as int, false);
    (if avail.len() > 0 {
        seq![ControlModel::Dava { routing_context, affected: avail }]
    } else {
        Seq::empty()
    }) + (if unavail.len() > 0 {
        seq![ControlModel::Duna { routing_context, affected: unavail }]
    } else {
        Seq::empty()
    })
}

/// What a list of control messages says.
pub open spec fn controls(s: Seq<Control>) -> Seq<ControlModel> {
    s.map_values(|c: Control| c@)
}

/// Answers an audit from what is available now.
pub fn answer_audit(
    router: &Router,
    tenant: &str,
    affected: &Vec<u32>,
    routing_context: Option<u32>,
) -> (r: Vec<Control>)
    requires
        router.wf(),
    ensures
        controls(r@) == audit_answer(router.runtimes(), tenant@, affected@, routing_context),
{
    let ghost ts = router.runtimes();
    let mut avail: Vec<u32> = Vec::new();
    let mut unavail: Vec<u32> = Vec::new();
    let mut i: usize = 0;
    while i < affected.len()
        invariant
            i <= affected@.len(),
            router.wf(),
            ts == router.runtimes(),
            avail@ == sorted_out(ts, tenant@, affected@, i as int, true),
            unavail@ == sorted_out(ts, tenant@, affected@, i as int, false),
        decreases affected.len() - i,
    {
        if router.is_reachable(tenant, affected[i]) {
            avail.push(affected[i]);
        } else {
            unavail.push(affected[i]);
        }
        i += 1;
    }
    let ghost a = avail@;
    let ghost u = unavail@;
    let mut out: Vec<Control> = Vec::new();
    if avail.len() > 0 {
        out.push(Control::Dava { routing_context, affected: avail });
    }
    if unavail.len() > 0 {
        out.push(Control::Duna { routing_context, affected: unavail });
    }
    proof {
        assert(controls(out@) =~= audit_answer(ts, tenant@, affected@, routing_context));
    }
    out
}

/// One of the first `n` point codes gives an event.
pub open spec fn any_event(k: SignalKind, pcs: Seq<u32>, variant: Variant, n: int) -> bool
    decreases n,
{
    n > 0 && (event_of(k, pcs[n - 1], variant) is Some || any_event(k, pcs, variant, n - 1))
}

/// The route gauges show what the tenant reaches now, if there was an event, and
/// are as they were if not.
pub open spec fn gauges_follow(rt: &TenantRuntime, m: Metrics, n: Metrics, event: bool) -> bool {
    if event {
        gauges_refreshed(rt, m.route_available@, n.route_available@)
    } else {
        n.route_available == m.route_available
    }
}

/// What a network-management message changes: the availability and counters by
/// its events, and the route gauges if there were any. Only an audit is answered.
pub open spec fn managed(
    before: Router,
    after: Router,
    m: Metrics,
    n: Metrics,
    tenant: Seq<char>,
    variant: Variant,
    k: SignalKind,
    pcs: Seq<u32>,
) -> bool {
    let ts = before.runtimes();
    &&& state_became(
        ts,
        after.runtimes(),
        tenant,
        availability_after(k, pcs, variant, pcs.len() as int, ts[tenant].route_state@),
    )
    &&& ts.contains_key(tenant) ==> n.management_events@ == events_after(
        k,
        pcs,
        variant,
        pcs.len() as int,
        m.management_events@,
    )
    &&& ts.contains_key(tenant) ==> gauges_follow(
        &after.runtimes()[tenant],
        m,
        n,
        any_event(k, pcs, variant, pcs.len() as int),
    )
    &&& n == (Metrics {
        management_events: n.management_events,
        route_available: n.route_available,
        ..m
    })
    &&& !ts.contains_key(tenant) ==> n == m
}

proof fn gauges_refreshed_again(
    rt: &TenantRuntime,
    now: &TenantRuntime,
    m: Metrics,
    n: Metrics,
    o: Metrics,
    event: bool,
)
    requires
        rt.routes == now.routes,
        gauges_follow(rt, m, n, event),
        gauges_refreshed(now, n.route_available@, o.route_available@),
    ensures
        gauges_follow(now, m, o, true),
{
    assert forall|d: u32|
        if now.routes.candidates(d).len() > 0 {
            #[trigger] o.route_available@.contains_key(d) && o.route_available@[d] == gauge(
                destination(now, d) is Some,
            )
        } else {
            o.route_available@.contains_key(d) == m.route_available@.contains_key(d) && (
            m.route_available@.contains_key(d) ==> o.route_available@[d] == m.route_available@[d])
        } by {
        if o.route_available@.contains_key(d) {
        }
        if n.route_available@.contains_key(d) {
        }
    }
}

/// Handles a network-management message.
pub fn handle_ssnm(
    router: &mut Router,
    m: &mut Metrics,
    tenant: &str,
    variant: Variant,
    kind: SignalKind,
    affected: &Vec<u32>,
    routing_context: Option<u32>,
) -> (r: Vec<Control>)
    requires
        old(router).wf(),
        old(m).wf(),
    ensures
        final(router).wf(),
        final(m).wf(),
        controls(r@) == if kind == SignalKind::Daud {
            audit_answer(old(router).runtimes(), tenant@, affected@, routing_context)
        } else {
            Seq::empty()
        },
        managed(
            *old(router),
            *final(router),
            *old(m),
            *final(m),
            tenant@,
            variant,
            kind,
            affected@,
        ),
{
    let ghost start = router.runtimes();
    let ghost state = start[tenant@].route_state@;
    let mut out: Vec<Control> = Vec::new();
    match kind {
        SignalKind::Daud => {
            out = answer_audit(router, tenant, affected, routing_context);
        },
        _ => {
            proof {
                assert(controls(out@) =~= Seq::empty());
            }
        },
    }
    let mut i: usize = 0;
    while i < affected.len()
        invariant
            i <= affected@.len(),
            router.wf(),
            m.wf(),
            state == start[tenant@].route_state@,
            state_became(
                start,
                router.runtimes(),
                tenant@,
                availability_after(kind, affected@, variant, i as int, state),
            ),
            start.contains_key(tenant@) ==> m.management_events@ == events_after(
                kind,
                affected@,
                variant,
                i as int,
                old(m).management_events@,
            ),
            start.contains_key(tenant@) ==> gauges_follow(
                &router.runtimes()[tenant@],
                *old(m),
                *m,
                any_event(kind, affected@, variant, i as int),
            ),
            *m == (Metrics {
                management_events: m.management_events,
                route_available: m.route_available,
                ..*old(m)
            }),
            !start.contains_key(tenant@) ==> *m == *old(m),
        decreases affected.len() - i,
    {
        let ghost before = router.runtimes();
        let ghost was = availability_after(kind, affected@, variant, i as int, state);
        let ghost now = availability_after(kind, affected@, variant, i + 1, state);
        let ghost counted = *m;
        match PointCode::from_value(affected[i], variant) {
            Ok(pc) => {
                let event = match kind {
                    SignalKind::Duna => Some(Mtp3Event::Pause { affected: pc }),
                    SignalKind::Dava => Some(Mtp3Event::Resume { affected: pc }),
                    SignalKind::Drst => Some(Mtp3Event::Resume { affected: pc }),
                    SignalKind::Scon => Some(
                        Mtp3Event::Status {
                            affected: pc,
                            status: Mtp3Status::Congested { level: 1 },
                        },
                    ),
                    _ => None,
                };
                proof {
                    assert(event == event_of(kind, affected@[i as int], variant));
                }
                match event {
                    Some(e) => {
                        router.apply_mtp3_event(m, tenant, &e);
                        proof {
                            assert(start.dom().contains(tenant@) == before.dom().contains(tenant@));
                            assert(state_became(before, router.runtimes(), tenant@, now));
                            state_became_twice(start, before, router.runtimes(), tenant@, was, now);
                            if start.contains_key(tenant@) {
                                gauges_refreshed_again(
                                    &before[tenant@],
                                    &router.runtimes()[tenant@],
                                    *old(m),
                                    counted,
                                    *m,
                                    any_event(kind, affected@, variant, i as int),
                                );
                            }
                        }
                    },
                    None => {},
                }
            },
            Err(_) => {},
        }
        i += 1;
    }
    out
}

// ── The ASP state machine, gateway side ─────────────────────────────────────

/// The state of a peer ASP.
#[derive(Clone, Copy, PartialEq, Eq, Structural, Debug)]
pub enum AspState {
    /// Before ASP-UP.
    Down,
    /// Up, not carrying traffic.
    Inactive,
    /// Carrying traffic.
    Active,
}

/// What the gateway does on a message.
#[derive(Clone, Debug, PartialEq, Eq)]
pub enum SgAction {
    /// Reply with this control message.
    Reply(Control),
    /// Deliver the payload.
    Deliver,
    /// Nothing.
    Ignore,
}

/// What an [`SgAction`] says.
pub enum SgModel {
    Reply(ControlModel),
    Deliver,
    Ignore,
}

impl View for SgAction {
    type V = SgModel;

    open spec fn view(&self) -> SgModel {
        match *self {
            SgAction::Reply(c) => SgModel::Reply(c@),
            SgAction::Deliver => SgModel::Deliver,
            SgAction::Ignore => SgModel::Ignore,
        }
    }
}

/// The state of a peer ASP after a message.
pub open spec fn asp_after(s: AspState, k: SignalKind) -> AspState {
    match k {
        SignalKind::AspUp => AspState::Inactive,
        SignalKind::AspActive => AspState::Active,
        SignalKind::AspInactive => AspState::Inactive,
        SignalKind::AspDown => AspState::Down,
        _ => s,
    }
}

/// What the gateway does on a message: it acknowledges every step of the
/// handshake and every heartbeat, and delivers payload while the peer is active.
pub open spec fn sg_reaction(s: AspState, k: SignalKind, rc: Option<u32>) -> SgModel {
    match k {
        SignalKind::AspUp => SgModel::Reply(ControlModel::AspUpAck),
        SignalKind::AspActive => SgModel::Reply(ControlModel::AspActiveAck { routing_context: rc }),
        SignalKind::AspInactive => SgModel::Reply(
            ControlModel::AspInactiveAck { routing_context: rc },
        ),
        SignalKind::AspDown => SgModel::Reply(ControlModel::AspDownAck),
        SignalKind::Heartbeat => SgModel::Reply(ControlModel::HeartbeatAck),
        SignalKind::Data => if s == AspState::Active {
            SgModel::Deliver
        } else {
            SgModel::Ignore
        },
        _ => SgModel::Ignore,
    }
}

/// One step of the gateway-side ASP state machine.
pub fn sg_step(state: AspState, kind: SignalKind, routing_context: Option<u32>) -> (r: (
    AspState,
    SgAction,
))
    ensures
        r.0 == asp_after(state, kind),
        r.1@ == sg_reaction(state, kind, routing_context),
{
    match kind {
        SignalKind::AspUp => (AspState::Inactive, SgAction::Reply(Control::AspUpAck)),
        SignalKind::AspActive => (
            AspState::Active,
            SgAction::Reply(Control::AspActiveAck { routing_context }),
        ),
        SignalKind::AspInactive => (
            AspState::Inactive,
            SgAction::Reply(Control::AspInactiveAck { routing_context }),
        ),
        SignalKind::AspDown => (AspState::Down, SgAction::Reply(Control::AspDownAck)),
        SignalKind::Heartbeat => (state, SgAction::Reply(Control::HeartbeatAck)),
        SignalKind::Data => {
            if state == AspState::Active {
                (state, SgAction::Deliver)
            } else {
                (state, SgAction::Ignore)
            }
        },
        _ => (state, SgAction::Ignore),
    }
}

/// The state of a peer ASP after a sequence of messages.
pub open spec fn asp_after_all(s: AspState, ks: Seq<SignalKind>, n: int) -> AspState
    decreases n,
{
    if n <= 0 {
        s
    } else {
        asp_after(asp_after_all(s, ks, n - 1), ks[n - 1])
    }
}

/// Payload is delivered only from an active peer, and a peer is active only after
/// it has asked to be: until an ASP-ACTIVE arrives nothing is delivered.
pub proof fn law_no_payload_before_active(ks: Seq<SignalKind>, n: int, rc: Option<u32>)
    requires
        0 <= n <= ks.len(),
        forall|i: int| 0 <= i < n ==> ks[i] != SignalKind::AspActive,
    ensures
        asp_after_all(AspState::Down, ks, n) != AspState::Active,
        sg_reaction(asp_after_all(AspState::Down, ks, n), SignalKind::Data, rc) == SgModel::Ignore,
    decreases n,
{
    if n > 0 {
        law_no_payload_before_active(ks, n - 1, rc);
    }
}

/// The handshake brings a peer up: after ASP-UP and ASP-ACTIVE it is active, from
/// whatever state it started.
pub proof fn law_handshake_activates(s: AspState)
    ensures
        asp_after(asp_after(s, SignalKind::AspUp), SignalKind::AspActive) == AspState::Active,
        asp_after(s, SignalKind::AspDown) == AspState::Down,
{
}

// ── The ASP side ────────────────────────────────────────────────────────────

/// The value of the Traffic Mode Type parameter (RFC 4666).
pub open spec fn mode_value(m: TrafficMode) -> u32 {
    match m {
        TrafficMode::Override => 1,
        TrafficMode::Loadshare => 2,
        TrafficMode::Broadcast => 3,
    }
}

/// The value of the Traffic Mode Type parameter.
pub fn traffic_mode_value(m: TrafficMode) -> (r: u32)
    ensures
        r == mode_value(m),
{
    match m {
        TrafficMode::Override => 1,
        TrafficMode::Loadshare => 2,
        TrafficMode::Broadcast => 3,
    }
}

/// What an ASP does on a message.
#[derive(Clone, Debug, PartialEq, Eq)]
pub enum AspReaction {
    /// Send this control message.
    Send(Control),
    /// The association carries traffic from now on.
    Activate,
    /// The association carries no traffic any more.
    Deactivate,
    /// Deliver the payload.
    Deliver,
    /// Handle network management.
    Manage,
    /// Nothing.
    Ignore,
}

/// What an [`AspReaction`] says.
pub enum AspModel {
    Send(ControlModel),
    Activate,
    Deactivate,
    Deliver,
    Manage,
    Ignore,
}

impl View for AspReaction {
    type V = AspModel;

    open spec fn view(&self) -> AspModel {
        match *self {
            AspReaction::Send(c) => AspModel::Send(c@),
            AspReaction::Activate => AspModel::Activate,
            AspReaction::Deactivate => AspModel::Deactivate,
            AspReaction::Deliver => AspModel::Deliver,
            AspReaction::Manage => AspModel::Manage,
            AspReaction::Ignore => AspModel::Ignore,
        }
    }
}

/// What an ASP does on a message: once up it asks to be active for the server it
/// belongs to, it answers heartbeats, and it takes payload while it carries.
pub open spec fn asp_reaction(
    k: SignalKind,
    membership: Option<(u32, TrafficMode)>,
    carrying: bool,
) -> AspModel {
    match k {
        SignalKind::AspUpAck => match membership {
            Some(p) => AspModel::Send(
                ControlModel::AspActive { traffic_mode: mode_value(p.1), routing_context: p.0 },
            ),
            None => AspModel::Ignore,
        },
        SignalKind::AspActiveAck => AspModel::Activate,
        SignalKind::AspInactiveAck => AspModel::Deactivate,
        SignalKind::AspDownAck => AspModel::Deactivate,
        SignalKind::Heartbeat => AspModel::Send(ControlModel::HeartbeatAck),
        SignalKind::Data => if carrying {
            AspModel::Deliver
        } else {
            AspModel::Ignore
        },
        _ => if manages_network(k) {
            AspModel::Manage
        } else {
            AspModel::Ignore
        },
    }
}

/// One step of an ASP.
pub fn asp_step(kind: SignalKind, membership: Option<(u32, TrafficMode)>, carrying: bool) -> (r:
    AspReaction)
    ensures
        r@ == asp_reaction(kind, membership, carrying),
{
    match kind {
        SignalKind::AspUpAck => match membership {
            Some((routing_context, mode)) => AspReaction::Send(
                Control::AspActive { traffic_mode: traffic_mode_value(mode), routing_context },
            ),
            None => AspReaction::Ignore,
        },
        SignalKind::AspActiveAck => AspReaction::Activate,
        SignalKind::AspInactiveAck => AspReaction::Deactivate,
        SignalKind::AspDownAck => AspReaction::Deactivate,
        SignalKind::Heartbeat => AspReaction::Send(Control::HeartbeatAck),
        SignalKind::Data => {
            if carrying {
                AspReaction::Deliver
            } else {
                AspReaction::Ignore
            }
        },
        k => {
            if is_ssnm(k) {
                AspReaction::Manage
            } else {
                AspReaction::Ignore
            }
        },
    }
}

/// The control message that opens an ASP's handshake.
pub fn asp_opening() -> (r: Control)
    ensures
        r@ == (ControlModel::AspUp { asp_id: 1 }),
{
    Control::AspUp { asp_id: 1 }
}

// ── M2PA links ──────────────────────────────────────────────────────────────

/// The alignment state of a link (RFC 4165).
#[derive(Clone, Copy, PartialEq, Eq, Structural, Debug)]
pub enum M2paState {
    OutOfService,
    NotAligned,
    Aligned,
    Proving,
    AlignedReady,
    InService,
}

/// A link status (RFC 4165).
#[derive(Clone, Copy, PartialEq, Eq, Structural, Debug)]
pub enum LinkStatus {
    Alignment,
    ProvingNormal,
    ProvingEmergency,
    Ready,
    ProcessorOutage,
    ProcessorRecovered,
    Busy,
    BusyEnded,
    OutOfService,
}

/// The number of a link status.
pub open spec fn status_number(s: LinkStatus) -> u32 {
    match s {
        LinkStatus::Alignment => 1,
        LinkStatus::ProvingNormal => 2,
        LinkStatus::ProvingEmergency => 3,
        LinkStatus::Ready => 4,
        LinkStatus::ProcessorOutage => 5,
        LinkStatus::ProcessorRecovered => 6,
        LinkStatus::Busy => 7,
        LinkStatus::BusyEnded => 8,
        LinkStatus::OutOfService => 9,
    }
}

impl LinkStatus {
    /// The number of this status.
    pub fn number(self) -> (r: u32)
        ensures
            r == status_number(self),
            1 <= r <= 9,
    {
        match self {
            LinkStatus::Alignment => 1,
            LinkStatus::ProvingNormal => 2,
            LinkStatus::ProvingEmergency => 3,
            LinkStatus::Ready => 4,
            LinkStatus::ProcessorOutage => 5,
            LinkStatus::ProcessorRecovered => 6,
            LinkStatus::Busy => 7,
            LinkStatus::BusyEnded => 8,
            LinkStatus::OutOfService => 9,
        }
    }

    /// The status with this number.
    pub fn from_number(n: u32) -> (r: Option<LinkStatus>)
        ensures
            r matches Some(s) ==> status_number(s) == n,
            r is None <==> !(1 <= n <= 9),
    {
        match n {
            1 => Some(LinkStatus::Alignment),
            2 => Some(LinkStatus::ProvingNormal),
            3 => Some(LinkStatus::ProvingEmergency),
            4 => Some(LinkStatus::Ready),
            5 => Some(LinkStatus::ProcessorOutage),
            6 => Some(LinkStatus::ProcessorRecovered),
            7 => Some(LinkStatus::Busy),
            8 => Some(LinkStatus::BusyEnded),
            9 => Some(LinkStatus::OutOfService),
            _ => None,
        }
    }
}

/// The state of a link after a status from its peer. Anything that the alignment
/// does not expect takes it out of service.
pub open spec fn link_after(s: M2paState, status: LinkStatus) -> M2paState {
    let proving = status == LinkStatus::ProvingNormal || status == LinkStatus::ProvingEmergency;
    let busy = status == LinkStatus::Busy || status == LinkStatus::BusyEnded;
    if s == M2paState::OutOfService && status == LinkStatus::Alignment {
        M2paState::NotAligned
    } else if s == M2paState::NotAligned && status == LinkStatus::Alignment {
        M2paState::Aligned
    } else if (s == M2paState::Aligned || s == M2paState::Proving) && proving {
        M2paState::Proving
    } else if s == M2paState::Proving && status == LinkStatus::Ready {
        M2paState::AlignedReady
    } else if s == M2paState::AlignedReady && (status == LinkStatus::Ready || status
        == LinkStatus::ProcessorRecovered) {
        M2paState::InService
    } else if s == M2paState::InService && status == LinkStatus::ProcessorOutage {
        M2paState::AlignedReady
    } else if s == M2paState::InService && busy {
        M2paState::InService
    } else {
        M2paState::OutOfService
    }
}

/// The state of a link after a status from its peer.
pub fn on_link_status(state: M2paState, status: LinkStatus) -> (r: M2paState)
    ensures
        r == link_after(state, status),
{
    match (state, status) {
        (M2paState::OutOfService, LinkStatus::Alignment) => M2paState::NotAligned,
        (M2paState::NotAligned, LinkStatus::Alignment) => M2paState::Aligned,
        (M2paState::Aligned, LinkStatus::ProvingNormal) => M2paState::Proving,
        (M2paState::Aligned, LinkStatus::ProvingEmergency) => M2paState::Proving,
        (M2paState::Proving, LinkStatus::ProvingNormal) => M2paState::Proving,
        (M2paState::Proving, LinkStatus::ProvingEmergency) => M2paState::Proving,
        (M2paState::Proving, LinkStatus::Ready) => M2paState::AlignedReady,
        (M2paState::AlignedReady, LinkStatus::Ready) => M2paState::InService,
        (M2paState::AlignedReady, LinkStatus::ProcessorRecovered) => M2paState::InService,
        (M2paState::InService, LinkStatus::ProcessorOutage) => M2paState::AlignedReady,
        (M2paState::InService, LinkStatus::Busy) => M2paState::InService,
        (M2paState::InService, LinkStatus::BusyEnded) => M2paState::InService,
        _ => M2paState::OutOfService,
    }
}

/// The status that pushes the peer forward from the state we reached.
pub open spec fn answer_in(s: M2paState) -> Option<LinkStatus> {
    match s {
        M2paState::Aligned => Some(LinkStatus::ProvingNormal),
        M2paState::Proving => Some(LinkStatus::Ready),
        M2paState::AlignedReady => Some(LinkStatus::Ready),
        _ => None,
    }
}

/// The link status to send on reaching a state, so that the peer advances too.
/// `None` to send nothing.
pub fn next_status(state: M2paState) -> (r: Option<LinkStatus>)
    ensures
        r == answer_in(state),
{
    match state {
        M2paState::Aligned => Some(LinkStatus::ProvingNormal),
        M2paState::Proving => Some(LinkStatus::Ready),
        M2paState::AlignedReady => Some(LinkStatus::Ready),
        _ => None,
    }
}

/// One end of a link: its state and the status it sent last.
pub struct LinkEnd {
    pub state: M2paState,
    pub sent: Option<LinkStatus>,
}

/// An end after its peer's last status, with its answer.
pub open spec fn end_after(e: LinkEnd, peer: Option<LinkStatus>) -> LinkEnd {
    match peer {
        Some(status) => LinkEnd {
            state: link_after(e.state, status),
            sent: answer_in(link_after(e.state, status)),
        },
        None => LinkEnd { sent: None, ..e },
    }
}

/// Both ends of a link after `n` exchanges, in which each end answers what the
/// other sent in the exchange before.
pub open spec fn exchanged(a: LinkEnd, b: LinkEnd, n: nat) -> (LinkEnd, LinkEnd)
    decreases n,
{
    if n == 0 {
        (a, b)
    } else {
        let p = exchanged(a, b, (n - 1) as nat);
        (end_after(p.0, p.1.sent), end_after(p.1, p.0.sent))
    }
}

/// A started end: not aligned, with its alignment sent.
pub open spec fn started() -> LinkEnd {
    LinkEnd { state: M2paState::NotAligned, sent: Some(LinkStatus::Alignment) }
}

/// How a link starts: the state it is in, and the status that it opens with.
pub fn link_opening() -> (r: (M2paState, LinkStatus))
    ensures
        r.0 == started().state,
        started().sent == Some(r.1),
{
    (M2paState::NotAligned, LinkStatus::Alignment)
}

/// The M2PA message that tells the peer a link status, with idle sequence numbers.
/// It decodes to that status.
pub fn send_status(status: LinkStatus) -> (r: Vec<u8>)
    ensures
        r@ == m2pa_status_octets(IDLE_SEQUENCE, IDLE_SEQUENCE, status_number(status)),
        is_link_status(m2pa_decoded(r@), IDLE_SEQUENCE, IDLE_SEQUENCE, status_number(status)),
{
    match m2pa_status(IDLE_SEQUENCE, IDLE_SEQUENCE, status.number()) {
        Ok(v) => v,
        Err(_) => Vec::new(),
    }
}

/// Two freshly started ends converge on in service in four exchanges, and stay
/// there.
pub proof fn law_alignment_converges(n: nat)
    requires
        n >= 4,
    ensures
        exchanged(started(), started(), n).0.state == M2paState::InService,
        exchanged(started(), started(), n).1.state == M2paState::InService,
{
    settled(n);
}

/// After four exchanges both ends are in service with nothing left to say.
proof fn settled(n: nat)
    requires
        n >= 4,
    ensures
        exchanged(started(), started(), n).0.state == M2paState::InService,
        exchanged(started(), started(), n).1.state == M2paState::InService,
        exchanged(started(), started(), n).0.sent is None,
        exchanged(started(), started(), n).1.sent is None,
    decreases n,
{
    if n == 4 {
        assert(exchanged(started(), started(), 0) == (started(), started()));
        assert(exchanged(started(), started(), 1).0.state == M2paState::Aligned);
        assert(exchanged(started(), started(), 1).1.state == M2paState::Aligned);
        assert(exchanged(started(), started(), 2).0.state == M2paState::Proving);
        assert(exchanged(started(), started(), 2).1.state == M2paState::Proving);
        assert(exchanged(started(), started(), 3).0.state == M2paState::AlignedReady);
        assert(exchanged(started(), started(), 3).1.state == M2paState::AlignedReady);
    } else {
        settled((n - 1) as nat);
    }
}

} // verus!
