//! What the registry of associations answers, stated on the associations themselves.
use crate::config::validate::adaptation_of;
use crate::config::{Adaptation, Config, TrafficMode};
use crate::metrics::{gauge, Metrics};
use crate::mtp3::route::{Availability, Egress};
use crate::routing::gauges_refreshed;
use crate::tenant::Runtimes;
use crate::transport::laws::{distinct_linksets, distinct_servers};
use crate::transport::laws::{law_linkset_is_up_while_carried, law_server_is_up_while_carried};
use crate::transport::registry::{
    any_carrying, arrived_over, asp_gauges, carrying, carrying_count, carrying_flags, chosen,
    egresses, known_slots, link_count_gauges, link_gauges, linkset_gauges, linkset_named, linkset_of,
    listed, recomputed, selection, server_gauges, server_named, server_of, slot_gauges, up, AsEntry,
    AssocSlot, Choice, LinksetEntry, Registry, Slots,
};
use vstd::prelude::*;
use vstd::string::*;

verus! {

/// An association bears traffic: it is known, established, and its adaptation is active.
pub open spec fn bears(slots: Slots, id: Seq<char>) -> bool {
    slots.contains_key(id) && slots[id].connected && slots[id].active
}

/// Every association stands under its own identifier.
pub open spec fn own_ids(slots: Slots) -> bool {
    forall|id: Seq<char>| #[trigger] slots.contains_key(id) ==> slots[id].id@ == id
}

/// How many of the first `n` associations bear traffic.
pub open spec fn bearing(slots: Slots, ids: Seq<String>, n: int) -> nat
    decreases n,
{
    if n <= 0 {
        0
    } else {
        bearing(slots, ids, n - 1) + (if bears(slots, ids[n - 1]@) {
            1nat
        } else {
            0
        })
    }
}

/// The choice of one association, with the routing context to stamp.
pub open spec fn choice_of(slots: Slots, id: Seq<char>, rc: Option<u32>) -> Choice {
    Choice { assoc: id, routing_context: rc, adaptation: slots[id].adaptation }
}

proof fn up_reads_flags(a: Seq<bool>, b: Seq<bool>, n: int)
    requires
        0 <= n <= a.len(),
        n <= b.len(),
        forall|i: int| 0 <= i < n ==> a[i] == b[i],
    ensures
        up(a, n) == up(b, n),
    decreases n,
{
    if n > 0 {
        up_reads_flags(a, b, n - 1);
    }
}

spec fn ups(slots: Slots, ids: Seq<String>, n: int) -> Seq<usize> {
    let known = known_slots(slots, ids, n);
    up(carrying_flags(known), known.len() as int)
}

proof fn ups_grow(slots: Slots, ids: Seq<String>, n: int)
    requires
        0 < n <= ids.len() <= usize::MAX,
    ensures
        known_slots(slots, ids, n).len() <= n,
        ups(slots, ids, n) == if bears(slots, ids[n - 1]@) {
            ups(slots, ids, n - 1).push(known_slots(slots, ids, n - 1).len() as usize)
        } else {
            ups(slots, ids, n - 1)
        },
{
    known_bounded(slots, ids, n - 1);
    let before = known_slots(slots, ids, n - 1);
    let all = known_slots(slots, ids, n);
    if slots.contains_key(ids[n - 1]@) {
        assert(all == before.push(slots[ids[n - 1]@]));
        up_reads_flags(carrying_flags(before), carrying_flags(all), before.len() as int);
    }
}

proof fn known_bounded(slots: Slots, ids: Seq<String>, n: int)
    requires
        0 <= n,
    ensures
        known_slots(slots, ids, n).len() <= n,
    decreases n,
{
    if n > 0 {
        known_bounded(slots, ids, n - 1);
    }
}

proof fn place_of(slots: Slots, ids: Seq<String>, n: int, k: int)
    requires
        0 <= k < n <= ids.len() <= usize::MAX,
        bears(slots, ids[k]@),
    ensures
        bearing(slots, ids, k) < ups(slots, ids, n).len(),
        (ups(slots, ids, n)[bearing(slots, ids, k) as int] as int) < known_slots(slots, ids, n).len(),
        known_slots(slots, ids, n)[ups(slots, ids, n)[bearing(slots, ids, k) as int] as int]
            == slots[ids[k]@],
    decreases n,
{
    ups_grow(slots, ids, n);
    ups_count(slots, ids, n - 1);
    known_bounded(slots, ids, n - 1);
    if k < n - 1 {
        place_of(slots, ids, n - 1, k);
    }
}

proof fn ups_count(slots: Slots, ids: Seq<String>, n: int)
    requires
        0 <= n <= ids.len() <= usize::MAX,
    ensures
        ups(slots, ids, n).len() == bearing(slots, ids, n),
    decreases n,
{
    if n > 0 {
        ups_grow(slots, ids, n);
        ups_count(slots, ids, n - 1);
    }
}

proof fn none_bearing(slots: Slots, ids: Seq<String>, n: int)
    requires
        forall|j: int| 0 <= j < n ==> !bears(slots, (#[trigger] ids[j])@),
    ensures
        bearing(slots, ids, n) == 0,
    decreases n,
{
    if n > 0 {
        none_bearing(slots, ids, n - 1);
        assert(!bears(slots, ids[n - 1]@));
    }
}

/// A message goes to associations that bear traffic. In override mode it goes to the
/// first of them. In load-sharing mode it goes to the one whose turn the link selection
/// gives: with `m` of them, selection `s` gives number `s` modulo `m`. In broadcast mode
/// it goes to each of them, in order.
pub proof fn law_traffic_goes_by_mode(
    slots: Slots,
    ids: Seq<String>,
    rc: Option<u32>,
    sls: u8,
    k: int,
)
    requires
        own_ids(slots),
        ids.len() <= usize::MAX,
        0 <= k < ids.len(),
        bears(slots, ids[k]@),
    ensures
        bearing(slots, ids, k) == 0 ==> egresses(slots, ids, TrafficMode::Override, rc, sls)
            == seq![choice_of(slots, ids[k]@, rc)],
        sls as int % bearing(slots, ids, ids.len() as int) as int == bearing(slots, ids, k)
            ==> egresses(slots, ids, TrafficMode::Loadshare, rc, sls) == seq![
            choice_of(slots, ids[k]@, rc),
        ],
        egresses(slots, ids, TrafficMode::Broadcast, rc, sls).len() == bearing(
            slots,
            ids,
            ids.len() as int,
        ),
        bearing(slots, ids, k) < bearing(slots, ids, ids.len() as int),
        egresses(slots, ids, TrafficMode::Broadcast, rc, sls)[bearing(slots, ids, k) as int]
            == choice_of(slots, ids[k]@, rc),
{
    let n = ids.len() as int;
    place_of(slots, ids, n, k);
    ups_count(slots, ids, n);
    let known = known_slots(slots, ids, n);
    let all = ups(slots, ids, n);
    assert(carrying_flags(known).len() == known.len());
    assert(chosen(TrafficMode::Broadcast, carrying_flags(known), sls) == all);
    assert(egresses(slots, ids, TrafficMode::Override, rc, sls).len() == 1);
    assert(egresses(slots, ids, TrafficMode::Loadshare, rc, sls).len() == 1);
    if bearing(slots, ids, k) == 0 {
        assert(egresses(slots, ids, TrafficMode::Override, rc, sls) =~= seq![
            choice_of(slots, ids[k]@, rc),
        ]);
    }
    if sls as int % bearing(slots, ids, n) as int == bearing(slots, ids, k) {
        assert(egresses(slots, ids, TrafficMode::Loadshare, rc, sls) =~= seq![
            choice_of(slots, ids[k]@, rc),
        ]);
    }
}

/// A message goes nowhere if no association bears traffic.
pub proof fn law_no_bearer_no_traffic(
    slots: Slots,
    ids: Seq<String>,
    mode: TrafficMode,
    rc: Option<u32>,
    sls: u8,
)
    requires
        ids.len() <= usize::MAX,
        forall|j: int| 0 <= j < ids.len() ==> !bears(slots, (#[trigger] ids[j])@),
    ensures
        egresses(slots, ids, mode, rc, sls).len() == 0,
{
    none_bearing(slots, ids, ids.len() as int);
    ups_count(slots, ids, ids.len() as int);
    let known = known_slots(slots, ids, ids.len() as int);
    assert(carrying_flags(known).len() == known.len());
}

proof fn server_at(es: Seq<AsEntry>, name: Seq<char>, from: int, i: int)
    requires
        0 <= from <= i < es.len(),
        es[i].name@ == name,
        forall|j: int| from <= j < i ==> (#[trigger] es[j]).name@ != name,
    ensures
        server_named(es, name, from) == Some(es[i]),
    decreases i - from,
{
    if from < i {
        assert(es[from].name@ != name);
        server_at(es, name, from + 1, i);
    }
}

proof fn linkset_at(es: Seq<LinksetEntry>, name: Seq<char>, from: int, i: int)
    requires
        0 <= from <= i < es.len(),
        es[i].name@ == name,
        forall|j: int| from <= j < i ==> (#[trigger] es[j]).name@ != name,
    ensures
        linkset_named(es, name, from) == Some(es[i]),
    decreases i - from,
{
    if from < i {
        assert(es[from].name@ != name);
        linkset_at(es, name, from + 1, i);
    }
}

/// A server's traffic goes to its own ASPs in its own traffic mode, stamped with its own
/// routing context; a linkset's goes to its own links, shared by link selection, with no
/// routing context. The first of a name counts.
pub proof fn law_selection_is_by_name(g: &Registry, i: int, sls: u8)
    ensures
        0 <= i < g.servers().len() && (forall|j: int|
            0 <= j < i ==> (#[trigger] g.servers()[j]).name@ != g.servers()[i].name@) ==> selection(
            g,
            Egress::ApplicationServer(g.servers()[i].name@),
            sls,
        ) == egresses(
            g.slots(),
            g.servers()[i].asps@,
            g.servers()[i].traffic_mode,
            Some(g.servers()[i].routing_context),
            sls,
        ),
        0 <= i < g.linkset_list().len() && (forall|j: int|
            0 <= j < i ==> (#[trigger] g.linkset_list()[j]).name@ != g.linkset_list()[i].name@)
            ==> selection(g, Egress::Linkset(g.linkset_list()[i].name@), sls) == egresses(
            g.slots(),
            g.linkset_list()[i].links@,
            TrafficMode::Loadshare,
            None,
            sls,
        ),
{
    if 0 <= i < g.servers().len() && (forall|j: int|
        0 <= j < i ==> (#[trigger] g.servers()[j]).name@ != g.servers()[i].name@) {
        server_at(g.servers(), g.servers()[i].name@, 0, i);
    }
    if 0 <= i < g.linkset_list().len() && (forall|j: int|
        0 <= j < i ==> (#[trigger] g.linkset_list()[j]).name@ != g.linkset_list()[i].name@) {
        linkset_at(g.linkset_list(), g.linkset_list()[i].name@, 0, i);
    }
}

/// A name in a list.
pub open spec fn among(ids: Seq<String>, id: Seq<char>) -> bool {
    exists|k: int| 0 <= k < ids.len() && (#[trigger] ids[k])@ == id
}

pub(crate) proof fn server_holding(es: Seq<AsEntry>, id: Seq<char>, from: int)
    requires
        0 <= from,
    ensures
        server_of(es, id, from) is Some ==> exists|i: int|
            from <= i < es.len() && #[trigger] es[i] == server_of(es, id, from)->Some_0 && among(
                es[i].asps@,
                id,
            ) && forall|j: int| from <= j < i ==> !among((#[trigger] es[j]).asps@, id),
        server_of(es, id, from) is None ==> forall|j: int|
            from <= j < es.len() ==> !among((#[trigger] es[j]).asps@, id),
    decreases es.len() - from,
{
    if from < es.len() {
        same_listing(es[from].asps@, id);
        if listed(es[from].asps@, id) {
            assert(es[from] == server_of(es, id, from)->Some_0);
        } else {
            server_holding(es, id, from + 1);
            if server_of(es, id, from + 1) is Some {
                let i = choose|i: int|
                    from + 1 <= i < es.len() && #[trigger] es[i] == server_of(
                        es,
                        id,
                        from + 1,
                    )->Some_0 && among(es[i].asps@, id) && forall|j: int|
                        from + 1 <= j < i ==> !among((#[trigger] es[j]).asps@, id);
                assert(es[i] == server_of(es, id, from)->Some_0);
            }
        }
    }
}

proof fn same_listing(ids: Seq<String>, id: Seq<char>)
    ensures
        listed(ids, id) == among(ids, id),
{
    if among(ids, id) {
        let k = choose|k: int| 0 <= k < ids.len() && (#[trigger] ids[k])@ == id;
        assert(ids[k]@ == id);
    }
    if listed(ids, id) {
        let k = choose|k: int| 0 <= k < ids.len() && #[trigger] ids[k]@ == id;
        assert(ids[k]@ == id);
    }
}

proof fn linkset_holding(es: Seq<LinksetEntry>, id: Seq<char>, from: int)
    requires
        0 <= from,
    ensures
        linkset_of(es, id, from) is Some ==> exists|i: int|
            from <= i < es.len() && #[trigger] es[i] == linkset_of(es, id, from)->Some_0 && among(
                es[i].links@,
                id,
            ) && forall|j: int| from <= j < i ==> !among((#[trigger] es[j]).links@, id),
        linkset_of(es, id, from) is None ==> forall|j: int|
            from <= j < es.len() ==> !among((#[trigger] es[j]).links@, id),
    decreases es.len() - from,
{
    if from < es.len() {
        same_listing(es[from].links@, id);
        if listed(es[from].links@, id) {
            assert(es[from] == linkset_of(es, id, from)->Some_0);
        } else {
            linkset_holding(es, id, from + 1);
            if linkset_of(es, id, from + 1) is Some {
                let i = choose|i: int|
                    from + 1 <= i < es.len() && #[trigger] es[i] == linkset_of(
                        es,
                        id,
                        from + 1,
                    )->Some_0 && among(es[i].links@, id) && forall|j: int|
                        from + 1 <= j < i ==> !among((#[trigger] es[j]).links@, id);
                assert(es[i] == linkset_of(es, id, from)->Some_0);
            }
        }
    }
}

/// What arrives over an association comes from the first server that it is an ASP of;
/// else from the first linkset that it is a link of; else from nowhere known.
pub proof fn law_arrival_comes_from_its_egress(g: &Registry, id: Seq<char>, i: int)
    ensures
        0 <= i < g.servers().len() && among(g.servers()[i].asps@, id) && (forall|j: int|
            0 <= j < i ==> !among((#[trigger] g.servers()[j]).asps@, id)) ==> arrived_over(g, id)
            == Some(Egress::ApplicationServer(g.servers()[i].name@)),
        (forall|j: int| 0 <= j < g.servers().len() ==> !among((#[trigger] g.servers()[j]).asps@, id))
            && 0 <= i < g.linkset_list().len() && among(g.linkset_list()[i].links@, id) && (
        forall|j: int| 0 <= j < i ==> !among((#[trigger] g.linkset_list()[j]).links@, id))
            ==> arrived_over(g, id) == Some(Egress::Linkset(g.linkset_list()[i].name@)),
        (forall|j: int| 0 <= j < g.servers().len() ==> !among((#[trigger] g.servers()[j]).asps@, id))
            && (forall|j: int|
            0 <= j < g.linkset_list().len() ==> !among((#[trigger] g.linkset_list()[j]).links@, id))
            ==> arrived_over(g, id) is None,
{
    server_holding(g.servers(), id, 0);
    linkset_holding(g.linkset_list(), id, 0);
    if server_of(g.servers(), id, 0) is Some {
        let es = g.servers();
        let k = choose|k: int|
            0 <= k < es.len() && #[trigger] es[k] == server_of(es, id, 0)->Some_0 && among(
                es[k].asps@,
                id,
            ) && forall|j: int| 0 <= j < k ==> !among((#[trigger] es[j]).asps@, id);
        assert(among(es[k].asps@, id));
    }
    if linkset_of(g.linkset_list(), id, 0) is Some {
        let es = g.linkset_list();
        let k = choose|k: int|
            0 <= k < es.len() && #[trigger] es[k] == linkset_of(es, id, 0)->Some_0 && among(
                es[k].links@,
                id,
            ) && forall|j: int| 0 <= j < k ==> !among((#[trigger] es[j]).links@, id);
        assert(among(es[k].links@, id));
    }
}

proof fn carrying_is_bearing(slots: Slots, ids: Seq<String>)
    ensures
        any_carrying(slots, ids) <==> exists|k: int|
            0 <= k < ids.len() && bears(slots, (#[trigger] ids[k])@),
{
    if any_carrying(slots, ids) {
        let k = choose|k: int| 0 <= k < ids.len() && carrying(slots, #[trigger] ids[k]@);
        assert(bears(slots, ids[k]@));
    }
    if exists|k: int| 0 <= k < ids.len() && bears(slots, (#[trigger] ids[k])@) {
        let k = choose|k: int| 0 <= k < ids.len() && bears(slots, (#[trigger] ids[k])@);
        assert(carrying(slots, ids[k]@));
    }
}

/// After a recomputation a server or a linkset is in service exactly if one of its
/// associations bears traffic. What is prohibited or congested stays as it was.
pub proof fn law_service_is_by_its_associations(g: &Registry, a: Availability, i: int)
    requires
        distinct_servers(g.servers()),
        distinct_linksets(g.linkset_list()),
    ensures
        0 <= i < g.servers().len() ==> (recomputed(g, a).as_up.contains(g.servers()[i].name@)
            <==> exists|k: int|
            0 <= k < g.servers()[i].asps@.len() && bears(
                g.slots(),
                (#[trigger] g.servers()[i].asps@[k])@,
            )),
        0 <= i < g.linkset_list().len() ==> (recomputed(g, a).linksets_up.contains(
            g.linkset_list()[i].name@,
        ) <==> exists|k: int|
            0 <= k < g.linkset_list()[i].links@.len() && bears(
                g.slots(),
                (#[trigger] g.linkset_list()[i].links@[k])@,
            )),
        recomputed(g, a).prohibited == a.prohibited,
        recomputed(g, a).congestion == a.congestion,
{
    if 0 <= i < g.servers().len() {
        law_server_is_up_while_carried(g, a, i);
        carrying_is_bearing(g.slots(), g.servers()[i].asps@);
    }
    if 0 <= i < g.linkset_list().len() {
        law_linkset_is_up_while_carried(g, a, i);
        carrying_is_bearing(g.slots(), g.linkset_list()[i].links@);
    }
}

// ── Gauges ──────────────────────────────────────────────────────────────────

/// The state that the gauges show of an association: 2 if it bears traffic, 1 if it is
/// only established, else 0.
pub open spec fn shows(s: AssocSlot, v: i64) -> bool {
    &&& s.connected && s.active ==> v == 2
    &&& s.connected && !s.active ==> v == 1
    &&& !s.connected ==> v == 0
}

/// The gauge of an association stands under its identifier and adaptation and shows its
/// state.
pub proof fn law_association_gauge_shows_state(
    g: &Registry,
    n: int,
    m: Map<(Seq<char>, Seq<char>), i64>,
    i: int,
)
    requires
        0 <= i < n <= g.slot_count(),
        forall|j: int| i < j < n ==> (#[trigger] g.slot_at(j)).id@ != g.slot_at(i).id@,
    ensures
        ({
            let s = g.slot_at(i);
            let label = match s.adaptation {
                Adaptation::M3ua => "m3ua"@,
                Adaptation::M2pa => "m2pa"@,
                Adaptation::Sua => "sua"@,
            };
            &&& slot_gauges(g, n, m).contains_key((s.id@, label))
            &&& shows(s, slot_gauges(g, n, m)[(s.id@, label)])
        }),
    decreases n,
{
    if i < n - 1 {
        assert(g.slot_at(n - 1).id@ != g.slot_at(i).id@);
        law_association_gauge_shows_state(g, n - 1, m, i);
    }
}

/// An M2PA link's gauge shows its state; an association over another adaptation has none
/// of its own.
pub proof fn law_link_gauge_shows_state(g: &Registry, n: int, m: Map<Seq<char>, i64>, i: int)
    requires
        0 <= i < n <= g.slot_count(),
        forall|j: int|
            0 <= j < n && j != i ==> (#[trigger] g.slot_at(j)).id@ != g.slot_at(i).id@,
    ensures
        g.slot_at(i).adaptation == Adaptation::M2pa ==> link_gauges(g, n, m).contains_key(
            g.slot_at(i).id@,
        ) && shows(g.slot_at(i), link_gauges(g, n, m)[g.slot_at(i).id@]),
        g.slot_at(i).adaptation != Adaptation::M2pa ==> (link_gauges(g, n, m).contains_key(
            g.slot_at(i).id@,
        ) <==> m.contains_key(g.slot_at(i).id@)),
    decreases n,
{
    if i < n - 1 {
        assert(g.slot_at(n - 1).id@ != g.slot_at(i).id@);
        law_link_gauge_shows_state(g, n - 1, m, i);
    } else {
        other_links(g, n - 1, m, g.slot_at(i).id@);
    }
}

proof fn other_links(g: &Registry, n: int, m: Map<Seq<char>, i64>, id: Seq<char>)
    requires
        0 <= n <= g.slot_count(),
        forall|j: int| 0 <= j < n ==> (#[trigger] g.slot_at(j)).id@ != id,
    ensures
        link_gauges(g, n, m).contains_key(id) <==> m.contains_key(id),
    decreases n,
{
    if n > 0 {
        assert(g.slot_at(n - 1).id@ != id);
        other_links(g, n - 1, m, id);
    }
}

proof fn asp_gauge(
    slots: Slots,
    e: AsEntry,
    n: int,
    m: Map<(Seq<char>, Seq<char>), i64>,
    k: int,
)
    requires
        0 <= k < n <= e.asps@.len(),
    ensures
        asp_gauges(slots, e, n, m).contains_key((e.asps@[k]@, e.name@)),
        asp_gauges(slots, e, n, m)[(e.asps@[k]@, e.name@)] == gauge(carrying(slots, e.asps@[k]@)),
    decreases n,
{
    if k < n - 1 {
        asp_gauge(slots, e, n - 1, m, k);
    }
}

proof fn asp_gauges_keep(
    slots: Slots,
    e: AsEntry,
    n: int,
    m: Map<(Seq<char>, Seq<char>), i64>,
    id: Seq<char>,
    name: Seq<char>,
)
    requires
        0 <= n <= e.asps@.len(),
        m.contains_key((id, name)),
        m[(id, name)] == gauge(carrying(slots, id)),
    ensures
        asp_gauges(slots, e, n, m).contains_key((id, name)),
        asp_gauges(slots, e, n, m)[(id, name)] == gauge(carrying(slots, id)),
    decreases n,
{
    if n > 0 {
        asp_gauges_keep(slots, e, n - 1, m, id, name);
    }
}

/// The gauge of an ASP of a server is 1 exactly while it bears traffic, else 0.
pub proof fn law_asp_gauge_shows_state(
    slots: Slots,
    es: Seq<AsEntry>,
    n: int,
    m: Map<(Seq<char>, Seq<char>), i64>,
    i: int,
    k: int,
)
    requires
        0 <= i < n <= es.len(),
        0 <= k < es[i].asps@.len(),
    ensures
        ({
            let id = es[i].asps@[k]@;
            let all = server_gauges(slots, es, n, m);
            &&& all.contains_key((id, es[i].name@))
            &&& bears(slots, id) ==> all[(id, es[i].name@)] == 1
            &&& !bears(slots, id) ==> all[(id, es[i].name@)] == 0
        }),
    decreases n,
{
    asp_gauge_value(slots, es, n, m, i, k);
    let id = es[i].asps@[k]@;
    assert(carrying(slots, id) == bears(slots, id));
    assert(gauge(carrying(slots, id)) == gauge(bears(slots, id)));
}

proof fn asp_gauge_value(
    slots: Slots,
    es: Seq<AsEntry>,
    n: int,
    m: Map<(Seq<char>, Seq<char>), i64>,
    i: int,
    k: int,
)
    requires
        0 <= i < n <= es.len(),
        0 <= k < es[i].asps@.len(),
    ensures
        server_gauges(slots, es, n, m).contains_key((es[i].asps@[k]@, es[i].name@)),
        server_gauges(slots, es, n, m)[(es[i].asps@[k]@, es[i].name@)] == gauge(
            carrying(slots, es[i].asps@[k]@),
        ),
    decreases n,
{
    let last = es[n - 1];
    let before = server_gauges(slots, es, n - 1, m);
    if i == n - 1 {
        asp_gauge(slots, last, last.asps@.len() as int, before, k);
    } else {
        asp_gauge_value(slots, es, n - 1, m, i, k);
        asp_gauges_keep(
            slots,
            last,
            last.asps@.len() as int,
            before,
            es[i].asps@[k]@,
            es[i].name@,
        );
    }
}

proof fn carried_count(slots: Slots, ids: Seq<String>, n: int)
    ensures
        carrying_count(slots, ids, n) == bearing(slots, ids, n),
    decreases n,
{
    if n > 0 {
        carried_count(slots, ids, n - 1);
    }
}

/// A linkset's gauges: 1 while one of its links bears traffic, else 0; and how many of
/// its links do.
pub proof fn law_linkset_gauges_show_state(
    slots: Slots,
    es: Seq<LinksetEntry>,
    n: int,
    m: Map<Seq<char>, i64>,
    i: int,
)
    requires
        0 <= i < n <= es.len(),
        forall|j: int| i < j < n ==> (#[trigger] es[j]).name@ != es[i].name@,
        es[i].links@.len() <= i64::MAX,
    ensures
        linkset_gauges(slots, es, n, m).contains_key(es[i].name@),
        (exists|k: int| 0 <= k < es[i].links@.len() && bears(slots, (#[trigger] es[i].links@[k])@))
            ==> linkset_gauges(slots, es, n, m)[es[i].name@] == 1,
        (forall|k: int|
            0 <= k < es[i].links@.len() ==> !bears(slots, (#[trigger] es[i].links@[k])@))
            ==> linkset_gauges(slots, es, n, m)[es[i].name@] == 0,
        link_count_gauges(slots, es, n, m).contains_key(es[i].name@),
        link_count_gauges(slots, es, n, m)[es[i].name@] == bearing(
            slots,
            es[i].links@,
            es[i].links@.len() as int,
        ),
    decreases n,
{
    carrying_is_bearing(slots, es[i].links@);
    if i < n - 1 {
        assert(es[n - 1].name@ != es[i].name@);
        law_linkset_gauges_show_state(slots, es, n - 1, m, i);
    } else {
        carried_count(slots, es[i].links@, es[i].links@.len() as int);
        bearing_bounded(slots, es[i].links@, es[i].links@.len() as int);
        assert(gauge(any_carrying(slots, es[i].links@)) == linkset_gauges(slots, es, n, m)[es[i].name@]);
    }
}

proof fn bearing_bounded(slots: Slots, ids: Seq<String>, n: int)
    requires
        0 <= n,
    ensures
        bearing(slots, ids, n) <= n,
    decreases n,
{
    if n > 0 {
        bearing_bounded(slots, ids, n - 1);
    }
}

/// A recomputation sets the tenant's availability to what its associations give, shows
/// every association, ASP, linkset and link, refreshes the route gauges, and touches no
/// other tenant and no other count.
pub proof fn law_recomputation(
    g: &Registry,
    before: Runtimes,
    after: Runtimes,
    m: Metrics,
    n: Metrics,
    other: Seq<char>,
)
    requires
        g.refreshed(before, after, m, n),
    ensures
        after.dom() == before.dom(),
        other != g.tenant_id() && before.contains_key(other) ==> after[other] == before[other],
        before.contains_key(g.tenant_id()) ==> after[g.tenant_id()].route_state@ == recomputed(
            g,
            before[g.tenant_id()].route_state@,
        ) && after[g.tenant_id()].routes == before[g.tenant_id()].routes
            && after[g.tenant_id()].gtt == before[g.tenant_id()].gtt && gauges_refreshed(
            &after[g.tenant_id()],
            m.route_available@,
            n.route_available@,
        ),
        n.association_state@ == slot_gauges(g, g.slot_count() as int, m.association_state@),
        n.m2pa_link_state@ == link_gauges(g, g.slot_count() as int, m.m2pa_link_state@),
        n.asp_state@ == server_gauges(
            g.slots(),
            g.servers(),
            g.servers().len() as int,
            m.asp_state@,
        ),
        n.linkset_available@ == linkset_gauges(
            g.slots(),
            g.linkset_list(),
            g.linkset_list().len() as int,
            m.linkset_available@,
        ),
        n.linkset_active_links@ == link_count_gauges(
            g.slots(),
            g.linkset_list(),
            g.linkset_list().len() as int,
            m.linkset_active_links@,
        ),
        n.loops == m.loops,
        n.screened == m.screened,
        n.msu_rx == m.msu_rx,
        n.msu_tx == m.msu_tx,
        n.translations == m.translations,
        n.errors == m.errors,
        n.active == m.active,
        n.abort_counts == m.abort_counts,
        n.management_events == m.management_events,
{
}

/// A registry starts as its tenant is configured: its servers with their ASPs, modes and
/// routing contexts, its linksets with their links, and every association of the
/// configuration, with its adaptation, none of them bearing traffic.
pub proof fn law_registry_starts_as_configured(
    g: &Registry,
    config: &Config,
    id: Seq<char>,
    i: int,
    k: int,
    a: Seq<char>,
)
    requires
        g.built_from(config, id),
    ensures
        g.tenant_id() == id,
        g.var() == config.tenants@[id].variant,
        !bears(g.slots(), a),
        own_ids(g.slots()),
        g.slots().contains_key(a) <==> adaptation_of(config.associations@, a) is Some,
        g.slots().contains_key(a) ==> Some(g.slots()[a].adaptation) == adaptation_of(
            config.associations@,
            a,
        ) && !g.slots()[a].connected && !g.slots()[a].active,
        g.servers().len() == config.tenants@[id].application_servers@.len(),
        0 <= i < g.servers().len() ==> {
            let e = g.servers()[i];
            let x = config.tenants@[id].application_servers@[i];
            e.name == x.name && e.traffic_mode == x.traffic_mode && e.routing_context
                == x.routing_context && e.asps@ == x.asps@
        },
        g.linkset_list().len() == config.tenants@[id].linksets@.len(),
        0 <= i < g.linkset_list().len() ==> {
            let e = g.linkset_list()[i];
            let x = config.tenants@[id].linksets@[i];
            &&& e.name == x.name
            &&& e.links@.len() == x.links@.len()
            &&& 0 <= k < x.links@.len() ==> e.links@[k] == x.links@[k].assoc
        },
{
    assert(g.slots().contains_key(a) || !g.slots().contains_key(a));
    if 0 <= i < g.servers().len() {
        let e = g.servers()[i];
    }
    if 0 <= i < g.linkset_list().len() {
        let e = g.linkset_list()[i];
    }
}

} // verus!
