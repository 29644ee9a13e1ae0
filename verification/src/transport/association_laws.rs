//! What the associations do on a signal, stated on the signals themselves.
use crate::config::{Adaptation, TrafficMode};
use crate::metrics::{count_at, next, Metrics};
use crate::mtp3::route::Availability;
use crate::point_code::Variant;
use crate::routing::{destination, gauges_refreshed, Router};
use crate::tenant::Runtimes;
use crate::transport::association::{
    any_event, asp_after, asp_after_all, asp_reaction, audit_answer, availability_after, answer_in,
    events_after, link_after, managed, manages_network, reaches, sg_reaction,
    signal_kind, sorted_out, status_number, AspModel, AspState, LinkStatus, M2paState, SgModel,
    SignalKind,
};
use crate::transport::wire::ControlModel;
use vstd::prelude::*;
use vstd::string::*;

verus! {

// ── Signals ─────────────────────────────────────────────────────────────────

/// A message type is told by its class and type numbers. M3UA has one payload message,
/// SUA has two; the other types are the same in both.
pub proof fn law_signal_numbers(a: Adaptation, class: u8, kind: u8)
    ensures
        signal_kind(a, class, kind) == SignalKind::Notify <==> class == 0 && kind == 1,
        signal_kind(a, class, kind) == SignalKind::Data <==> (a == Adaptation::M3ua && class == 1
            && kind == 1) || (a == Adaptation::Sua && class == 7 && (kind == 1 || kind == 2)),
        signal_kind(a, class, kind) == SignalKind::Duna <==> class == 2 && kind == 1,
        signal_kind(a, class, kind) == SignalKind::Dava <==> class == 2 && kind == 2,
        signal_kind(a, class, kind) == SignalKind::Daud <==> class == 2 && kind == 3,
        signal_kind(a, class, kind) == SignalKind::Scon <==> class == 2 && kind == 4,
        signal_kind(a, class, kind) == SignalKind::Dupu <==> class == 2 && kind == 5,
        signal_kind(a, class, kind) == SignalKind::Drst <==> class == 2 && kind == 6,
        signal_kind(a, class, kind) == SignalKind::AspUp <==> class == 3 && kind == 1,
        signal_kind(a, class, kind) == SignalKind::AspDown <==> class == 3 && kind == 2,
        signal_kind(a, class, kind) == SignalKind::Heartbeat <==> class == 3 && kind == 3,
        signal_kind(a, class, kind) == SignalKind::AspUpAck <==> class == 3 && kind == 4,
        signal_kind(a, class, kind) == SignalKind::AspDownAck <==> class == 3 && kind == 5,
        signal_kind(a, class, kind) == SignalKind::HeartbeatAck <==> class == 3 && kind == 6,
        signal_kind(a, class, kind) == SignalKind::AspActive <==> class == 4 && kind == 1,
        signal_kind(a, class, kind) == SignalKind::AspInactive <==> class == 4 && kind == 2,
        signal_kind(a, class, kind) == SignalKind::AspActiveAck <==> class == 4 && kind == 3,
        signal_kind(a, class, kind) == SignalKind::AspInactiveAck <==> class == 4 && kind == 4,
        manages_network(signal_kind(a, class, kind)) <==> class == 2 && 1 <= kind <= 6,
{
}

/// A control message that one end sends is the signal that the other end takes it for.
pub proof fn law_sent_control_is_understood(a: Adaptation, c: ControlModel)
    ensures
        ({
            let n = c.class_and_kind();
            let k = signal_kind(a, n.0, n.1);
            &&& c is AspUp <==> k == SignalKind::AspUp
            &&& c is AspUpAck <==> k == SignalKind::AspUpAck
            &&& c is AspDownAck <==> k == SignalKind::AspDownAck
            &&& c is AspActive <==> k == SignalKind::AspActive
            &&& c is AspActiveAck <==> k == SignalKind::AspActiveAck
            &&& c is AspInactiveAck <==> k == SignalKind::AspInactiveAck
            &&& c is HeartbeatAck <==> k == SignalKind::HeartbeatAck
            &&& c is Dava <==> k == SignalKind::Dava
            &&& c is Duna <==> k == SignalKind::Duna
        }),
{
}

// ── The signalling gateway ──────────────────────────────────────────────────

/// A signal that moves an ASP between its states.
pub open spec fn moves_asp(k: SignalKind) -> bool {
    k == SignalKind::AspUp || k == SignalKind::AspActive || k == SignalKind::AspInactive || k
        == SignalKind::AspDown
}

/// The last of some signals that moves an ASP is at this place.
pub open spec fn last_move(ks: Seq<SignalKind>, i: int) -> bool {
    &&& 0 <= i < ks.len()
    &&& moves_asp(ks[i])
    &&& forall|j: int| i < j < ks.len() ==> !moves_asp(#[trigger] ks[j])
}

/// An ASP is in the state that its last request asked for, whatever else it sent: active
/// after ASP Active, inactive after ASP Up or ASP Inactive, down after ASP Down, and down
/// before the first of these.
pub proof fn law_asp_is_where_it_asked_to_be(ks: Seq<SignalKind>, i: int)
    ensures
        last_move(ks, i) ==> {
            let s = asp_after_all(AspState::Down, ks, ks.len() as int);
            &&& ks[i] == SignalKind::AspActive ==> s == AspState::Active
            &&& ks[i] == SignalKind::AspUp ==> s == AspState::Inactive
            &&& ks[i] == SignalKind::AspInactive ==> s == AspState::Inactive
            &&& ks[i] == SignalKind::AspDown ==> s == AspState::Down
        },
        (forall|j: int| 0 <= j < ks.len() ==> !moves_asp(#[trigger] ks[j])) ==> asp_after_all(
            AspState::Down,
            ks,
            ks.len() as int,
        ) == AspState::Down,
{
    if last_move(ks, i) {
        asp_stays(ks, i + 1, ks.len() as int);
    }
    if forall|j: int| 0 <= j < ks.len() ==> !moves_asp(#[trigger] ks[j]) {
        asp_stays(ks, 0, ks.len() as int);
    }
}

proof fn asp_stays(ks: Seq<SignalKind>, from: int, n: int)
    requires
        0 <= from <= n <= ks.len(),
        forall|j: int| from <= j < n ==> !moves_asp(#[trigger] ks[j]),
    ensures
        asp_after_all(AspState::Down, ks, n) == asp_after_all(AspState::Down, ks, from),
    decreases n,
{
    if from < n {
        assert(!moves_asp(ks[n - 1]));
        asp_stays(ks, from, n - 1);
    }
}

/// The gateway acknowledges each request of an ASP with the acknowledgement of that
/// request, with the routing context that it named; it takes payload from an active ASP
/// and from no other, and answers nothing else.
pub proof fn law_gateway_acknowledges(s: AspState, k: SignalKind, rc: Option<u32>)
    ensures
        k == SignalKind::AspUp ==> sg_reaction(s, k, rc) == SgModel::Reply(ControlModel::AspUpAck),
        k == SignalKind::AspDown ==> sg_reaction(s, k, rc) == SgModel::Reply(
            ControlModel::AspDownAck,
        ),
        k == SignalKind::AspActive ==> sg_reaction(s, k, rc) == SgModel::Reply(
            ControlModel::AspActiveAck { routing_context: rc },
        ),
        k == SignalKind::AspInactive ==> sg_reaction(s, k, rc) == SgModel::Reply(
            ControlModel::AspInactiveAck { routing_context: rc },
        ),
        k == SignalKind::Heartbeat ==> sg_reaction(s, k, rc) == SgModel::Reply(
            ControlModel::HeartbeatAck,
        ),
        sg_reaction(s, k, rc) is Deliver <==> k == SignalKind::Data && s == AspState::Active,
        sg_reaction(s, k, rc) is Reply <==> moves_asp(k) || k == SignalKind::Heartbeat,
        !moves_asp(k) ==> asp_after(s, k) == s,
{
}

// ── The application server process ──────────────────────────────────────────

/// We ask to be active for our server once the gateway acknowledged that we are up, in
/// the server's traffic mode and with its routing context. We are active once that is
/// acknowledged, and no longer once an inactive or a down is. Payload is taken while we
/// are active, management of the network always, and a heartbeat is answered.
pub proof fn law_process_follows_the_gateway(
    k: SignalKind,
    membership: Option<(u32, TrafficMode)>,
    carrying: bool,
)
    ensures
        k == SignalKind::AspUpAck && membership is Some ==> asp_reaction(k, membership, carrying)
            == AspModel::Send(
            ControlModel::AspActive {
                traffic_mode: match membership->Some_0.1 {
                    TrafficMode::Override => 1,
                    TrafficMode::Loadshare => 2,
                    TrafficMode::Broadcast => 3,
                },
                routing_context: membership->Some_0.0,
            },
        ),
        k == SignalKind::AspUpAck && membership is None ==> asp_reaction(k, membership, carrying)
            is Ignore,
        asp_reaction(k, membership, carrying) is Activate <==> k == SignalKind::AspActiveAck,
        asp_reaction(k, membership, carrying) is Deactivate <==> k == SignalKind::AspInactiveAck
            || k == SignalKind::AspDownAck,
        asp_reaction(k, membership, carrying) is Deliver <==> k == SignalKind::Data && carrying,
        asp_reaction(k, membership, carrying) is Manage <==> k == SignalKind::Duna || k
            == SignalKind::Dava || k == SignalKind::Daud || k == SignalKind::Scon || k
            == SignalKind::Dupu || k == SignalKind::Drst,
        k == SignalKind::Heartbeat ==> asp_reaction(k, membership, carrying) == AspModel::Send(
            ControlModel::HeartbeatAck,
        ),
        asp_reaction(k, membership, carrying) is Send ==> k == SignalKind::Heartbeat || k
            == SignalKind::AspUpAck,
{
}

// ── Management of the network ───────────────────────────────────────────────

/// A point code fits a variant: 14 bits in the international one, 24 bits in the others.
pub open spec fn fits(pc: u32, variant: Variant) -> bool {
    if variant == Variant::Itu {
        pc <= 0x3FFF
    } else {
        pc <= 0xFF_FFFF
    }
}

/// A point code is among the first `n` affected ones.
pub open spec fn affects(pcs: Seq<u32>, n: int, d: u32) -> bool {
    exists|i: int| 0 <= i < n && #[trigger] pcs[i] == d
}

proof fn affects_grows(pcs: Seq<u32>, n: int, d: u32)
    requires
        0 < n <= pcs.len(),
    ensures
        affects(pcs, n, d) <==> affects(pcs, n - 1, d) || pcs[n - 1] == d,
{
    if affects(pcs, n, d) && pcs[n - 1] != d {
        let i = choose|i: int| 0 <= i < n && #[trigger] pcs[i] == d;
        assert(pcs[i] == d);
    }
    if affects(pcs, n - 1, d) {
        let i = choose|i: int| 0 <= i < n - 1 && #[trigger] pcs[i] == d;
        assert(pcs[i] == d);
    }
}

/// A network management message works on every point code that it names, that fits the
/// variant, and on no other: DUNA prohibits each of them, DAVA and DRST allow each and
/// clear its congestion, SCON marks each congested at level 1. The other messages change
/// nothing. What is in service does not change.
pub proof fn law_management_works_on_each_code(
    k: SignalKind,
    pcs: Seq<u32>,
    variant: Variant,
    n: int,
    a: Availability,
    d: u32,
)
    requires
        0 <= n <= pcs.len(),
    ensures
        ({
            let b = availability_after(k, pcs, variant, n, a);
            let hit = affects(pcs, n, d) && fits(d, variant);
            &&& b.as_up == a.as_up
            &&& b.linksets_up == a.linksets_up
            &&& k == SignalKind::Duna ==> (b.prohibited.contains(d) <==> a.prohibited.contains(d)
                || hit) && b.level(d) == a.level(d)
            &&& k == SignalKind::Dava || k == SignalKind::Drst ==> (b.prohibited.contains(d)
                <==> a.prohibited.contains(d) && !hit) && b.level(d) == (if hit {
                0
            } else {
                a.level(d)
            })
            &&& k == SignalKind::Scon ==> b.prohibited == a.prohibited && b.level(d) == (if hit {
                1
            } else {
                a.level(d)
            })
            &&& k != SignalKind::Duna && k != SignalKind::Dava && k != SignalKind::Drst && k
                != SignalKind::Scon ==> b == a
        }),
    decreases n,
{
    if n > 0 {
        law_management_works_on_each_code(k, pcs, variant, n - 1, a, d);
        affects_grows(pcs, n, d);
    }
}

/// Each affected point code that fits the variant is counted as one event of its kind, if
/// it is named once: a pause for DUNA, a resume for DAVA and DRST, a congestion for SCON.
/// Nothing else is counted.
pub proof fn law_management_is_counted(
    k: SignalKind,
    pcs: Seq<u32>,
    variant: Variant,
    n: int,
    c: Map<(u32, Seq<char>), u64>,
    d: u32,
    label: Seq<char>,
)
    requires
        0 <= n <= pcs.len(),
        pcs.no_duplicates(),
    ensures
        count_at(events_after(k, pcs, variant, n, c), (d, label)) == if affects(pcs, n, d) && fits(
            d,
            variant,
        ) && ((k == SignalKind::Duna && label == "pause"@) || ((k == SignalKind::Dava || k
            == SignalKind::Drst) && label == "resume"@) || (k == SignalKind::Scon && label
            == "congestion"@)) {
            next(count_at(c, (d, label)))
        } else {
            count_at(c, (d, label))
        },
    decreases n,
{
    if n > 0 {
        law_management_is_counted(k, pcs, variant, n - 1, c, d, label);
        affects_grows(pcs, n, d);
        if affects(pcs, n - 1, d) {
            let i = choose|i: int| 0 <= i < n - 1 && #[trigger] pcs[i] == d;
            assert(pcs[i] != pcs[n - 1]);
        }
        reveal_strlit("pause");
        reveal_strlit("resume");
        reveal_strlit("congestion");
    }
}

proof fn sorted_has(ts: Runtimes, tenant: Seq<char>, pcs: Seq<u32>, n: int, reached: bool, d: u32)
    requires
        0 <= n <= pcs.len(),
    ensures
        sorted_out(ts, tenant, pcs, n, reached).contains(d) <==> affects(pcs, n, d) && reaches(
            ts,
            tenant,
            d,
        ) == reached,
    decreases n,
{
    let all = sorted_out(ts, tenant, pcs, n, reached);
    if n > 0 {
        sorted_has(ts, tenant, pcs, n - 1, reached, d);
        affects_grows(pcs, n, d);
        let before = sorted_out(ts, tenant, pcs, n - 1, reached);
        if reaches(ts, tenant, pcs[n - 1]) == reached {
            assert(all[before.len() as int] == pcs[n - 1]);
            if before.contains(d) {
                let i = choose|i: int| 0 <= i < before.len() && before[i] == d;
                assert(all[i] == d);
            }
            if all.contains(d) && pcs[n - 1] != d {
                let i = choose|i: int| 0 <= i < all.len() && all[i] == d;
                assert(before[i] == d);
            }
        }
    }
}

proof fn sorted_parts(ts: Runtimes, tenant: Seq<char>, pcs: Seq<u32>, n: int)
    requires
        0 <= n,
    ensures
        sorted_out(ts, tenant, pcs, n, true).len() + sorted_out(ts, tenant, pcs, n, false).len()
            == n,
    decreases n,
{
    if n > 0 {
        sorted_parts(ts, tenant, pcs, n - 1);
    }
}

/// An audit is answered for each point code that it asks about, once: those that resolve
/// are reported available, in a DAVA, and then the others unavailable, in a DUNA, both
/// with the routing context of the audit. An empty report is not sent.
pub proof fn law_audit_is_answered_for_each_code(
    ts: Runtimes,
    tenant: Seq<char>,
    pcs: Seq<u32>,
    rc: Option<u32>,
)
    requires
        ts.contains_key(tenant),
    ensures
        ({
            let answer = audit_answer(ts, tenant, pcs, rc);
            let some = exists|i: int|
                0 <= i < pcs.len() && destination(&ts[tenant], #[trigger] pcs[i]) is Some;
            let none = exists|i: int|
                0 <= i < pcs.len() && destination(&ts[tenant], #[trigger] pcs[i]) is None;
            &&& answer.len() == (if some {
                1int
            } else {
                0
            }) + (if none {
                1int
            } else {
                0
            })
            &&& some ==> {
                &&& answer[0] is Dava && answer[0]->Dava_routing_context == rc
                &&& forall|d: u32| #[trigger]
                    answer[0]->Dava_affected.contains(d) <==> affects(pcs, pcs.len() as int, d)
                        && destination(&ts[tenant], d) is Some
            }
            &&& none ==> {
                let last = answer[answer.len() - 1];
                &&& last is Duna && last->Duna_routing_context == rc
                &&& forall|d: u32| #[trigger]
                    last->Duna_affected.contains(d) <==> affects(pcs, pcs.len() as int, d)
                        && destination(&ts[tenant], d) is None
            }
            &&& some && none ==> answer[0]->Dava_affected.len() + answer[1]->Duna_affected.len()
                == pcs.len()
            &&& some && !none ==> answer[0]->Dava_affected.len() == pcs.len()
            &&& !some && none ==> answer[0]->Duna_affected.len() == pcs.len()
        }),
{
    let n = pcs.len() as int;
    let yes = sorted_out(ts, tenant, pcs, n, true);
    let no = sorted_out(ts, tenant, pcs, n, false);
    assert forall|d: u32| #[trigger] yes.contains(d) <==> affects(pcs, n, d) && destination(
        &ts[tenant],
        d,
    ) is Some by {
        sorted_has(ts, tenant, pcs, n, true, d);
    }
    assert forall|d: u32| #[trigger] no.contains(d) <==> affects(pcs, n, d) && destination(
        &ts[tenant],
        d,
    ) is None by {
        sorted_has(ts, tenant, pcs, n, false, d);
    }
    sorted_parts(ts, tenant, pcs, n);
    if exists|i: int| 0 <= i < pcs.len() && destination(&ts[tenant], #[trigger] pcs[i]) is Some {
        let i = choose|i: int|
            0 <= i < pcs.len() && destination(&ts[tenant], #[trigger] pcs[i]) is Some;
        assert(affects(pcs, n, pcs[i]));
        assert(yes.contains(pcs[i]));
    }
    if exists|i: int| 0 <= i < pcs.len() && destination(&ts[tenant], #[trigger] pcs[i]) is None {
        let i = choose|i: int|
            0 <= i < pcs.len() && destination(&ts[tenant], #[trigger] pcs[i]) is None;
        assert(affects(pcs, n, pcs[i]));
        assert(no.contains(pcs[i]));
    }
    if yes.len() > 0 {
        assert(yes.contains(yes[0]));
        let i = choose|i: int| 0 <= i < n && #[trigger] pcs[i] == yes[0];
        assert(destination(&ts[tenant], pcs[i]) is Some);
    }
    if no.len() > 0 {
        assert(no.contains(no[0]));
        let i = choose|i: int| 0 <= i < n && #[trigger] pcs[i] == no[0];
        assert(destination(&ts[tenant], pcs[i]) is None);
    }
}

// ── M2PA links ──────────────────────────────────────────────────────────────

/// Which states lead to which on a link status of the peer. A link comes into service
/// only from readiness, on the peer's readiness or recovery, and stays there while the
/// peer is busy or no longer busy; an outage of the peer's processor takes it back to
/// readiness. Any status that its state does not expect takes it out of service.
pub proof fn law_link_states(s: M2paState, status: LinkStatus)
    ensures
        link_after(s, status) == M2paState::NotAligned <==> s == M2paState::OutOfService && status
            == LinkStatus::Alignment,
        link_after(s, status) == M2paState::Aligned <==> s == M2paState::NotAligned && status
            == LinkStatus::Alignment,
        link_after(s, status) == M2paState::Proving <==> (s == M2paState::Aligned || s
            == M2paState::Proving) && (status == LinkStatus::ProvingNormal || status
            == LinkStatus::ProvingEmergency),
        link_after(s, status) == M2paState::AlignedReady <==> (s == M2paState::Proving && status
            == LinkStatus::Ready) || (s == M2paState::InService && status
            == LinkStatus::ProcessorOutage),
        link_after(s, status) == M2paState::InService <==> (s == M2paState::AlignedReady && (status
            == LinkStatus::Ready || status == LinkStatus::ProcessorRecovered)) || (s
            == M2paState::InService && (status == LinkStatus::Busy || status
            == LinkStatus::BusyEnded)),
        status == LinkStatus::OutOfService ==> link_after(s, status) == M2paState::OutOfService,
        s == M2paState::InService && link_after(s, status) == M2paState::InService ==> status
            == LinkStatus::Busy || status == LinkStatus::BusyEnded,
{
}

/// What a link answers in a state: it proves once aligned, and says that it is ready while
/// proving and once ready; in service and out of it, it says nothing.
pub proof fn law_link_answers(s: M2paState)
    ensures
        answer_in(s) == Some(LinkStatus::ProvingNormal) <==> s == M2paState::Aligned,
        answer_in(s) == Some(LinkStatus::Ready) <==> s == M2paState::Proving || s
            == M2paState::AlignedReady,
        answer_in(s) is None <==> s == M2paState::OutOfService || s == M2paState::NotAligned || s
            == M2paState::InService,
{
}

/// The numbers of the link statuses, one for one from 1 to 9.
pub proof fn law_status_numbers(a: LinkStatus, b: LinkStatus)
    ensures
        1 <= status_number(a) <= 9,
        status_number(a) == status_number(b) <==> a == b,
        a == LinkStatus::Alignment <==> status_number(a) == 1,
        a == LinkStatus::ProvingNormal <==> status_number(a) == 2,
        a == LinkStatus::ProvingEmergency <==> status_number(a) == 3,
        a == LinkStatus::Ready <==> status_number(a) == 4,
        a == LinkStatus::ProcessorOutage <==> status_number(a) == 5,
        a == LinkStatus::ProcessorRecovered <==> status_number(a) == 6,
        a == LinkStatus::Busy <==> status_number(a) == 7,
        a == LinkStatus::BusyEnded <==> status_number(a) == 8,
        a == LinkStatus::OutOfService <==> status_number(a) == 9,
{
}

/// Some event comes of a management message exactly if it is one that changes
/// availability and names a point code that fits.
pub proof fn law_event_comes_of_a_fitting_code(
    k: SignalKind,
    pcs: Seq<u32>,
    variant: Variant,
    n: int,
)
    requires
        0 <= n <= pcs.len(),
    ensures
        any_event(k, pcs, variant, n) <==> (k == SignalKind::Duna || k == SignalKind::Dava || k
            == SignalKind::Drst || k == SignalKind::Scon) && exists|i: int|
            0 <= i < n && fits(#[trigger] pcs[i], variant),
    decreases n,
{
    if n > 0 {
        law_event_comes_of_a_fitting_code(k, pcs, variant, n - 1);
        if exists|i: int| 0 <= i < n - 1 && fits(#[trigger] pcs[i], variant) {
            let i = choose|i: int| 0 <= i < n - 1 && fits(#[trigger] pcs[i], variant);
            assert(fits(pcs[i], variant));
        }
        if fits(pcs[n - 1], variant) {
            assert(exists|i: int| 0 <= i < n && fits(#[trigger] pcs[i], variant));
        }
        if exists|i: int| 0 <= i < n && fits(#[trigger] pcs[i], variant) {
            let i = choose|i: int| 0 <= i < n && fits(#[trigger] pcs[i], variant);
            if i < n - 1 {
                assert(fits(pcs[i], variant));
            }
        }
    }
}

/// A management message works on the availability of its tenant alone: it counts its
/// events, refreshes the tenant's route gauges if there were any, and changes no other
/// tenant and no other count. In an unknown tenant it does nothing.
pub proof fn law_management_is_of_one_tenant(
    before: Router,
    after: Router,
    m: Metrics,
    n: Metrics,
    tenant: Seq<char>,
    variant: Variant,
    k: SignalKind,
    pcs: Seq<u32>,
    other: Seq<char>,
)
    requires
        managed(before, after, m, n, tenant, variant, k, pcs),
    ensures
        after.runtimes().dom() == before.runtimes().dom(),
        other != tenant && before.runtimes().contains_key(other) ==> after.runtimes()[other]
            == before.runtimes()[other],
        before.runtimes().contains_key(tenant) ==> {
            let a = after.runtimes()[tenant];
            let b = before.runtimes()[tenant];
            let len = pcs.len() as int;
            &&& a.route_state@ == availability_after(k, pcs, variant, len, b.route_state@)
            &&& a.gtt == b.gtt && a.routes == b.routes && a.content == b.content
            &&& n.management_events@ == events_after(k, pcs, variant, len, m.management_events@)
            &&& any_event(k, pcs, variant, len) ==> gauges_refreshed(
                &a,
                m.route_available@,
                n.route_available@,
            )
            &&& !any_event(k, pcs, variant, len) ==> n.route_available == m.route_available
        },
        !before.runtimes().contains_key(tenant) ==> n == m,
        n.loops == m.loops,
        n.screened == m.screened,
        n.msu_rx == m.msu_rx,
        n.msu_tx == m.msu_tx,
        n.translations == m.translations,
        n.errors == m.errors,
        n.active == m.active,
        n.abort_counts == m.abort_counts,
        n.association_state == m.association_state,
{
}

} // verus!
