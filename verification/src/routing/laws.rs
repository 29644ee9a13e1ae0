//! What holds of every routing decision.
use crate::config::{GroupMode, RouteTarget};
use crate::mtp3::laws::law_resolved_is_best;
use crate::mtp3::route::Egress;
use crate::routing::{
    by_translation, content_hit, content_target, converted, decision_for, decision_in, destination,
    first_reachable, group_of, groups_after, of_translation, owns_called, resolved_target, Arrival,
    Decision,
};
use crate::sccp::gtt::{Title, Translated};
use crate::tenant::{Runtimes, TenantRuntime};
use vstd::prelude::*;

verus! {

/// A message for a point code that is not ours is decided by the point code alone:
/// its titles, subsystem and content are not read, and no group moves on.
pub proof fn law_transit_reads_point_code_only(
    ts: Runtimes,
    rt: &TenantRuntime,
    a: Arrival,
    b: Arrival,
)
    requires
        a.dpc == b.dpc,
        a.dpc != rt.point_code,
    ensures
        decision_for(ts, rt, a) == decision_for(ts, rt, b),
        groups_after(rt, a) == rt.gtt.group_map(),
{
}

/// A message for a point code that is not ours is forwarded exactly when the point
/// code is reachable, and then to what it resolves to.
pub proof fn law_transit_follows_route(ts: Runtimes, rt: &TenantRuntime, a: Arrival, via: Egress)
    requires
        a.dpc != rt.point_code,
    ensures
        decision_for(ts, rt, a) == (Decision::Route { via }) <==> destination(rt, a.dpc) == Some(
            via,
        ),
        !(decision_for(ts, rt, a) is Route) ==> decision_for(ts, rt, a) is Drop,
{
}

/// A message is only ever sent to a destination that is in service.
pub proof fn law_egress_is_in_service(ts: Runtimes, rt: &TenantRuntime, a: Arrival)
    ensures
        decision_for(ts, rt, a) matches Decision::Route { via } ==> rt.route_state@.available(via),
        decision_for(ts, rt, a) matches Decision::RouteTo { dpc, ssn, via: Some(via) }
            ==> rt.route_state@.available(via),
{
    law_resolved_is_best(rt.routes.candidates(a.dpc), rt.route_state@, a.dpc);
    if let Decision::RouteTo { dpc, ssn, via } = decision_for(ts, rt, a) {
        law_resolved_is_best(rt.routes.candidates(dpc), rt.route_state@, dpc);
    }
}

/// A message for us without a called title terminates here when it is for a
/// subsystem that we own, whatever it carries.
pub proof fn law_owned_subsystem_terminates(ts: Runtimes, rt: &TenantRuntime, a: Arrival)
    requires
        a.dpc == rt.point_code,
        a.cdpa is None,
        owns_called(rt, a),
    ensures
        decision_for(ts, rt, a) == Decision::Local,
{
}

/// A message that a content rule screens is dropped, whatever its title would
/// translate to.
pub proof fn law_screened_is_dropped(ts: Runtimes, rt: &TenantRuntime, a: Arrival)
    requires
        a.dpc == rt.point_code,
        a.cdpa is Some,
        content_hit(rt, a) matches Some(rule) && rule.action is Screen,
    ensures
        decision_for(ts, rt, a) is Drop,
        groups_after(rt, a) == rt.gtt.group_map(),
{
}

/// A content rule whose target resolves decides ahead of title translation.
pub proof fn law_content_goes_first(ts: Runtimes, rt: &TenantRuntime, a: Arrival)
    requires
        a.dpc == rt.point_code,
        a.cdpa is Some,
        content_target(rt, a) is Some,
    ensures
        decision_for(ts, rt, a) == of_translation(ts, rt, content_target(rt, a)->Some_0),
{
}

/// Without a content rule that matches, a message for us is decided as if there
/// were no content routing.
pub proof fn law_content_falls_through(ts: Runtimes, rt: &TenantRuntime, a: Arrival)
    requires
        content_hit(rt, a) is None,
    ensures
        decision_for(ts, rt, a) == decision_for(ts, rt, Arrival { view: None, ..a }),
        groups_after(rt, a) == groups_after(rt, Arrival { view: None, ..a }),
{
    let b = Arrival { view: None, ..a };
    assert(content_hit(rt, b) is None);
    assert(by_translation(ts, rt, a) == by_translation(ts, rt, b));
}

proof fn reachable_is_first(rt: &TenantRuntime, members: Seq<(u32, u8)>, from: int)
    requires
        0 <= from <= members.len(),
    ensures
        match first_reachable(rt, members, from) {
            Some(a) => exists|i: int|
                #![trigger members[i]]
                from <= i < members.len() && members[i] == a && destination(rt, a.0) is Some && (
                forall|j: int|
                    from <= j < i ==> destination(rt, #[trigger] members[j].0) is None),
            None => forall|j: int|
                from <= j < members.len() ==> destination(rt, #[trigger] members[j].0) is None,
        },
    decreases members.len() - from,
{
    if from < members.len() {
        if destination(rt, members[from].0) is None {
            reachable_is_first(rt, members, from + 1);
            if let Some(a) = first_reachable(rt, members, from) {
                let i = choose|i: int|
                    #![trigger members[i]]
                    from + 1 <= i < members.len() && members[i] == a && destination(rt, a.0) is Some
                        && (forall|j: int|
                        from + 1 <= j < i ==> destination(rt, #[trigger] members[j].0) is None);
                assert(members[i] == a);
            }
        } else {
            assert(members[from].0 == members[from].0);
        }
    }
}

/// A cost group fails over: a target that names one goes to its cheapest reachable
/// member, and to its primary when none is reachable.
pub proof fn law_cost_group_fails_over(rt: &TenantRuntime, t: RouteTarget, g: Seq<char>)
    requires
        group_of(t) == Some(g),
        rt.gtt.group_map().contains_key(g),
        rt.gtt.group_map()[g].mode == GroupMode::Cost,
        rt.gtt.group_map()[g].members@.len() > 0,
    ensures
        ({
            let members = rt.gtt.group_map()[g].members@;
            resolved_target(rt, t) matches Some(Translated::Dpc { dpc, ssn }) && exists|i: int|
                #![trigger members[i]]
                0 <= i < members.len() && members[i] == (dpc, ssn) && ((destination(rt, dpc) is Some
                    && (forall|j: int|
                    0 <= j < i ==> destination(rt, #[trigger] members[j].0) is None)) || (i == 0 && (
                forall|j: int|
                    0 <= j < members.len() ==> destination(rt, #[trigger] members[j].0) is None)))
        }),
{
    let members = rt.gtt.group_map()[g].members@;
    reachable_is_first(rt, members, 0);
    match first_reachable(rt, members, 0) {
        Some(a) => {
            let i = choose|i: int|
                #![trigger members[i]]
                0 <= i < members.len() && members[i] == a && destination(rt, a.0) is Some && (
                forall|j: int|
                    0 <= j < i ==> destination(rt, #[trigger] members[j].0) is None);
            assert(members[i] == (a.0, a.1));
        },
        None => {
            assert(members[0] == (members[0].0, members[0].1));
        },
    }
}

/// The conversion before translation touches E.214 titles only.
pub proof fn law_only_e214_is_converted(rt: &TenantRuntime, t: Title)
    requires
        t.np != Some(3u8),
    ensures
        converted(rt, t) == t,
{
}

/// An unknown tenant drops everything.
pub proof fn law_unknown_tenant_drops(ts: Runtimes, tenant: Seq<char>, a: Arrival)
    requires
        !ts.contains_key(tenant),
    ensures
        decision_in(ts, tenant, a) is Drop,
{
}

} // verus!
