//! What holds of the transport state as a whole.
use crate::config::TrafficMode;
use crate::mtp3::route::{Availability, Egress};
use crate::transport::registry::{
    any_carrying, carrying, carrying_flags, chosen, known_slots, law_chosen_is_active,
    linkset_named, linksets_up, recomputed, selection, server_named, servers_up, AsEntry,
    LinksetEntry, Registry, Slots,
};
use vstd::prelude::*;

verus! {

/// No two servers have the same name.
pub open spec fn distinct_servers(es: Seq<AsEntry>) -> bool {
    forall|i: int, j: int| 0 <= i < j < es.len() ==> (#[trigger] es[i]).name@ != (#[trigger] es[j]).name@
}

/// No two linksets have the same name.
pub open spec fn distinct_linksets(es: Seq<LinksetEntry>) -> bool {
    forall|i: int, j: int| 0 <= i < j < es.len() ==> (#[trigger] es[i]).name@ != (#[trigger] es[j]).name@
}

proof fn server_after(slots: Slots, es: Seq<AsEntry>, n: int, up: Set<Seq<char>>, i: int)
    requires
        distinct_servers(es),
        0 <= i < n <= es.len(),
    ensures
        servers_up(slots, es, n, up).contains(es[i].name@) == any_carrying(slots, es[i].asps@),
    decreases n,
{
    if i < n - 1 {
        server_after(slots, es, n - 1, up, i);
        assert(es[i].name@ != es[n - 1].name@);
    }
}

proof fn linkset_after(slots: Slots, es: Seq<LinksetEntry>, n: int, up: Set<Seq<char>>, i: int)
    requires
        distinct_linksets(es),
        0 <= i < n <= es.len(),
    ensures
        linksets_up(slots, es, n, up).contains(es[i].name@) == any_carrying(slots, es[i].links@),
    decreases n,
{
    if i < n - 1 {
        linkset_after(slots, es, n - 1, up, i);
        assert(es[i].name@ != es[n - 1].name@);
    }
}

/// A server is in service exactly while one of its ASPs carries traffic.
pub proof fn law_server_is_up_while_carried(g: &Registry, a: Availability, i: int)
    requires
        distinct_servers(g.servers()),
        0 <= i < g.servers().len(),
    ensures
        recomputed(g, a).available(Egress::ApplicationServer(g.servers()[i].name@))
            == any_carrying(g.slots(), g.servers()[i].asps@),
{
    server_after(g.slots(), g.servers(), g.servers().len() as int, a.as_up, i);
}

/// A linkset is in service exactly while one of its links carries traffic.
pub proof fn law_linkset_is_up_while_carried(g: &Registry, a: Availability, i: int)
    requires
        distinct_linksets(g.linkset_list()),
        0 <= i < g.linkset_list().len(),
    ensures
        recomputed(g, a).available(Egress::Linkset(g.linkset_list()[i].name@)) == any_carrying(
            g.slots(),
            g.linkset_list()[i].links@,
        ),
{
    linkset_after(
        g.slots(),
        g.linkset_list(),
        g.linkset_list().len() as int,
        a.linksets_up,
        i,
    );
}

/// Recomputing the availability again changes nothing.
pub proof fn law_recompute_is_idempotent(g: &Registry, a: Availability)
    requires
        distinct_servers(g.servers()),
        distinct_linksets(g.linkset_list()),
    ensures
        recomputed(g, recomputed(g, a)) == recomputed(g, a),
{
    let s = recomputed(g, a);
    servers_settled(g.slots(), g.servers(), g.servers().len() as int, s.as_up);
    linksets_settled(g.slots(), g.linkset_list(), g.linkset_list().len() as int, s.linksets_up);
    assert forall|i: int| 0 <= i < g.servers().len() implies s.as_up.contains(
        (#[trigger] g.servers()[i]).name@,
    ) == any_carrying(g.slots(), g.servers()[i].asps@) by {
        law_server_is_up_while_carried(g, a, i);
    }
    assert forall|i: int| 0 <= i < g.linkset_list().len() implies s.linksets_up.contains(
        (#[trigger] g.linkset_list()[i]).name@,
    ) == any_carrying(g.slots(), g.linkset_list()[i].links@) by {
        law_linkset_is_up_while_carried(g, a, i);
    }
}

proof fn servers_settled(slots: Slots, es: Seq<AsEntry>, n: int, up: Set<Seq<char>>)
    requires
        0 <= n <= es.len(),
    ensures
        (forall|i: int|
            0 <= i < es.len() ==> up.contains((#[trigger] es[i]).name@) == any_carrying(
                slots,
                es[i].asps@,
            )) ==> servers_up(slots, es, n, up) == up,
    decreases n,
{
    if n > 0 {
        servers_settled(slots, es, n - 1, up);
        if forall|i: int|
            0 <= i < es.len() ==> up.contains((#[trigger] es[i]).name@) == any_carrying(
                slots,
                es[i].asps@,
            ) {
            assert(up.contains(es[n - 1].name@) == any_carrying(slots, es[n - 1].asps@));
            assert(servers_up(slots, es, n, up) =~= up);
        }
    }
}

proof fn linksets_settled(slots: Slots, es: Seq<LinksetEntry>, n: int, up: Set<Seq<char>>)
    requires
        0 <= n <= es.len(),
    ensures
        (forall|i: int|
            0 <= i < es.len() ==> up.contains((#[trigger] es[i]).name@) == any_carrying(
                slots,
                es[i].links@,
            )) ==> linksets_up(slots, es, n, up) == up,
    decreases n,
{
    if n > 0 {
        linksets_settled(slots, es, n - 1, up);
        if forall|i: int|
            0 <= i < es.len() ==> up.contains((#[trigger] es[i]).name@) == any_carrying(
                slots,
                es[i].links@,
            ) {
            assert(up.contains(es[n - 1].name@) == any_carrying(slots, es[n - 1].links@));
            assert(linksets_up(slots, es, n, up) =~= up);
        }
    }
}

proof fn known_is_bounded(slots: Slots, ids: Seq<String>, n: int)
    requires
        0 <= n,
    ensures
        known_slots(slots, ids, n).len() <= n,
    decreases n,
{
    if n > 0 {
        known_is_bounded(slots, ids, n - 1);
    }
}

proof fn known_is_listed(slots: Slots, ids: Seq<String>, n: int, k: int)
    requires
        0 <= n <= ids.len(),
        0 <= k < known_slots(slots, ids, n).len(),
        forall|id: Seq<char>| #[trigger] slots.contains_key(id) ==> slots[id].id@ == id,
    ensures
        ({
            let s = known_slots(slots, ids, n)[k];
            &&& slots.contains_key(s.id@)
            &&& slots[s.id@] == s
            &&& exists|i: int| 0 <= i < n && #[trigger] ids[i]@ == s.id@
        }),
    decreases n,
{
    let last = ids[n - 1]@;
    if slots.contains_key(last) && k == known_slots(slots, ids, n).len() - 1 {
        assert(known_slots(slots, ids, n)[k] == slots[last]);
        assert(ids[n - 1]@ == slots[last].id@);
    } else {
        known_is_listed(slots, ids, n - 1, k);
    }
}

/// A message leaves only on associations that carry traffic.
pub proof fn law_selected_carries(g: &Registry, dest: Egress, sls: u8, k: int)
    requires
        forall|id: Seq<char>| #[trigger] g.slots().contains_key(id) ==> g.slots()[id].id@ == id,
        0 <= k < selection(g, dest, sls).len(),
    ensures
        carrying(g.slots(), selection(g, dest, sls)[k].assoc),
        g.slots()[selection(g, dest, sls)[k].assoc].adaptation
            == selection(g, dest, sls)[k].adaptation,
{
    let (list, mode) = match dest {
        Egress::ApplicationServer(name) => (
            server_named(g.servers(), name, 0)->Some_0.asps,
            server_named(g.servers(), name, 0)->Some_0.traffic_mode,
        ),
        Egress::Linkset(name) => (
            linkset_named(g.linkset_list(), name, 0)->Some_0.links,
            TrafficMode::Loadshare,
        ),
    };
    let ids = list@;
    assert(list.len() == ids.len());
    known_is_bounded(g.slots(), ids, ids.len() as int);
    let known = known_slots(g.slots(), ids, ids.len() as int);
    let at = chosen(mode, carrying_flags(known), sls);
    law_chosen_is_active(mode, carrying_flags(known), sls);
    assert(0 <= at[k] < known.len() && carrying_flags(known)[at[k] as int]);
    known_is_listed(g.slots(), ids, ids.len() as int, at[k] as int);
}

} // verus!
