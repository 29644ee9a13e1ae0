//! What a node does with what it sends and receives.
use crate::config::validate::{linkset_names, server_names};
use crate::config::Tenant;
use crate::metrics::Metrics;
use crate::routing::{destination, groups_after, Router};
use crate::tenant::{all_up, Runtimes};
use crate::transport::forward::{
    arrival_of, dispatch_counted, dispatched, framed, sccp_part, sent_via, view_for,
};
use crate::transport::framing::unit_of_m2pa;
use crate::transport::msu::{MsuModel, TransportFault};
use crate::transport::node::{
    abort_frames, carried_unit, delivered, delivery, lifecycle, originated_frames, reply_frame,
    same_registry, slot_became, LinkState,
};
use crate::transport::registry::{server_of, AssocSlot, Registry};
use crate::transport::registry_laws::{among, bears};
use crate::transport::wire::M2paModel;
use vstd::prelude::*;

verus! {

/// A message that we originate goes over what its point code resolves to, like one in
/// transit; one for our own point code, or for one that does not resolve, goes nowhere.
pub proof fn law_originated_goes_by_point_code(ts: Runtimes, g: &Registry, m: MsuModel)
    requires
        ts.contains_key(g.tenant_id()),
    ensures
        m.dpc != ts[g.tenant_id()].point_code && destination(&ts[g.tenant_id()], m.dpc) is Some
            ==> originated_frames(ts, g, m) == sent_via(
            g,
            destination(&ts[g.tenant_id()], m.dpc)->Some_0,
            m,
        ),
        m.dpc != ts[g.tenant_id()].point_code && destination(&ts[g.tenant_id()], m.dpc) is None
            ==> originated_frames(ts, g, m).len() == 0,
        m.dpc == ts[g.tenant_id()].point_code ==> originated_frames(ts, g, m).len() == 0,
{
}

/// A reply goes back over the association that it answers, framed for its adaptation and
/// stamped with the routing context of its server, if the association is established.
pub proof fn law_reply_goes_back_over_its_association(
    g: &Registry,
    assoc: Seq<char>,
    m: MsuModel,
    i: int,
)
    ensures
        !g.slots().contains_key(assoc) || !g.slots()[assoc].connected ==> reply_frame(g, assoc, m)
            is None,
        g.slots().contains_key(assoc) && g.slots()[assoc].connected && 0 <= i < g.servers().len()
            && among(g.servers()[i].asps@, assoc) && (forall|j: int|
            0 <= j < i ==> !among((#[trigger] g.servers()[j]).asps@, assoc)) ==> reply_frame(
            g,
            assoc,
            m,
        ) == framed(
            m,
            assoc,
            g.slots()[assoc].adaptation,
            Some(g.servers()[i].routing_context),
        ),
        g.slots().contains_key(assoc) && g.slots()[assoc].connected && (forall|j: int|
            0 <= j < g.servers().len() ==> !among((#[trigger] g.servers()[j]).asps@, assoc))
            ==> reply_frame(g, assoc, m) == framed(m, assoc, g.slots()[assoc].adaptation, None),
        reply_frame(g, assoc, m) matches Some(f) ==> f.assoc == assoc && f.stream == 1,
{
    crate::transport::registry_laws::server_holding(g.servers(), assoc, 0);
    if server_of(g.servers(), assoc, 0) is Some {
        let es = g.servers();
        let k = choose|k: int|
            0 <= k < es.len() && #[trigger] es[k] == server_of(es, assoc, 0)->Some_0 && among(
                es[k].asps@,
                assoc,
            ) && forall|j: int| 0 <= j < k ==> !among((#[trigger] es[j]).asps@, assoc);
        assert(among(es[k].asps@, assoc));
    }
}

/// An abort of an aged dialogue goes back over the association that the dialogue came
/// over, if there is one, and else by its point code.
pub proof fn law_abort_goes_back(ts: Runtimes, g: &Registry, assoc: Seq<char>, m: MsuModel)
    ensures
        assoc.len() > 0 && g.slots().contains_key(assoc) ==> {
            &&& reply_frame(g, assoc, m) matches Some(f) ==> abort_frames(ts, g, assoc, m) == seq![
                f,
            ]
            &&& reply_frame(g, assoc, m) is None ==> abort_frames(ts, g, assoc, m).len() == 0
        },
        assoc.len() == 0 || !g.slots().contains_key(assoc) ==> abort_frames(ts, g, assoc, m)
            == originated_frames(ts, g, m),
{
}

/// The unit of an M2PA frame is taken exactly if the link bears traffic and the frame
/// carries one.
pub proof fn law_link_takes_units_in_service(
    g: &Registry,
    d: Result<M2paModel, Seq<char>>,
    assoc: Seq<char>,
)
    ensures
        !bears(g.slots(), assoc) ==> carried_unit(g, d, assoc) is None,
        bears(g.slots(), assoc) ==> (carried_unit(g, d, assoc) matches Some(u) ==> unit_of_m2pa(d)
            == Ok::<Option<MsuModel>, TransportFault>(Some(u))),
        bears(g.slots(), assoc) && unit_of_m2pa(d) is Ok ==> carried_unit(g, d, assoc)
            == unit_of_m2pa(d)->Ok_0,
{
}

/// What an association shows of itself: active while it bears traffic, inactive while it
/// is only established, else down.
pub proof fn law_lifecycle(s: AssocSlot)
    ensures
        lifecycle(s) == LinkState::Active <==> s.connected && s.active,
        lifecycle(s) == LinkState::Inactive <==> s.connected && !s.active,
        lifecycle(s) == LinkState::Down <==> !s.connected,
{
}

/// A change of one association leaves the others and the tenant's servers and linksets as
/// they were.
pub proof fn law_change_is_of_one_association(
    before: Registry,
    after: Registry,
    id: Seq<char>,
    slot: AssocSlot,
    other: Seq<char>,
)
    requires
        slot_became(before, after, id, slot),
    ensures
        after.slots().contains_key(other) <==> before.slots().contains_key(other),
        other != id && before.slots().contains_key(other) ==> after.slots()[other]
            == before.slots()[other],
        before.slots().contains_key(id) ==> after.slots()[id] == slot,
        after.servers() == before.servers(),
        after.linkset_list() == before.linkset_list(),
        after.tenant_id() == before.tenant_id(),
        after.var() == before.var(),
{
}

/// A tenant starts with every server and every linkset of its configuration in service,
/// nothing prohibited and nothing congested.
pub proof fn law_everything_starts_in_service(t: &Tenant, name: Seq<char>, d: u32)
    ensures
        all_up(t).as_up.contains(name) <==> exists|i: int|
            0 <= i < t.application_servers@.len() && (#[trigger] t.application_servers@[i]).name@
                == name,
        all_up(t).linksets_up.contains(name) <==> exists|i: int|
            0 <= i < t.linksets@.len() && (#[trigger] t.linksets@[i]).name@ == name,
        !all_up(t).prohibited.contains(d),
        all_up(t).level(d) == 0,
{
    if exists|i: int|
        0 <= i < t.application_servers@.len() && (#[trigger] t.application_servers@[i]).name@
            == name {
        let i = choose|i: int|
            0 <= i < t.application_servers@.len() && (#[trigger] t.application_servers@[i]).name@
                == name;
        assert(server_names(t)[i] == name);
    }
    if exists|i: int| 0 <= i < t.linksets@.len() && (#[trigger] t.linksets@[i]).name@ == name {
        let i = choose|i: int|
            0 <= i < t.linksets@.len() && (#[trigger] t.linksets@[i]).name@ == name;
        assert(linkset_names(t)[i] == name);
    }
    if all_up(t).as_up.contains(name) {
        let s = server_names(t);
        assert(s.contains(name));
        let i = choose|i: int| 0 <= i < s.len() && s[i] == name;
        assert(t.application_servers@[i].name@ == name);
    }
    if all_up(t).linksets_up.contains(name) {
        let s = linkset_names(t);
        assert(s.contains(name));
        let i = choose|i: int| 0 <= i < s.len() && s[i] == name;
        assert(t.linksets@[i].name@ == name);
    }
}

/// Registries that hold the same have the same associations, servers, linksets, tenant and
/// variant.
pub proof fn law_same_registry(a: Registry, b: Registry)
    requires
        same_registry(a, b),
    ensures
        a.slots() == b.slots(),
        a.servers() == b.servers(),
        a.linkset_list() == b.linkset_list(),
        a.tenant_id() == b.tenant_id(),
        a.var() == b.var(),
{
}

/// A unit that is delivered is dispatched as it is: it is decoded, looked at for content,
/// and routed; what is counted and which groups move on is that of the dispatch. Without
/// a unit nothing changes.
pub proof fn law_delivery_is_a_dispatch(
    before: Router,
    after: Router,
    m: Metrics,
    n: Metrics,
    g: &Registry,
    unit: Option<MsuModel>,
    assoc: Seq<char>,
    other: Seq<char>,
)
    requires
        delivered(before, after, m, n, g, unit, assoc),
    ensures
        unit is None ==> after == before && n == m && delivery(
            before.runtimes(),
            g,
            unit,
            assoc,
        ) is None,
        unit matches Some(u) ==> {
            let ts = before.runtimes();
            let view = view_for(ts, g.tenant_id(), sccp_part(u));
            let o = dispatched(ts, g, u, sccp_part(u), view, assoc);
            &&& delivery(ts, g, unit, assoc) == Some(o)
            &&& dispatch_counted(
                m,
                n,
                ts,
                g.tenant_id(),
                u,
                arrival_of(u, sccp_part(u), view),
                o,
            )
            &&& other != g.tenant_id() && ts.contains_key(other) ==> after.runtimes().contains_key(
                other,
            ) && after.runtimes()[other] == ts[other]
            &&& ts.contains_key(g.tenant_id()) && ts[g.tenant_id()].point_code == u.opc ==> after
                == before
            &&& ts.contains_key(g.tenant_id()) && ts[g.tenant_id()].point_code != u.opc
                ==> after.runtimes()[g.tenant_id()].gtt.group_map() == groups_after(
                &ts[g.tenant_id()],
                arrival_of(u, sccp_part(u), view),
            ) && after.runtimes()[g.tenant_id()].route_state == ts[g.tenant_id()].route_state
                && after.runtimes()[g.tenant_id()].routes == ts[g.tenant_id()].routes
                && after.runtimes()[g.tenant_id()].content == ts[g.tenant_id()].content
        },
{
}

} // verus!
