//! The transport's shared state: one slot per association, and the egress maps of
//! a tenant.
//!
//! Association tasks update their slot as a handshake progresses. From the slots
//! follow what is in service ([`Registry::recompute`]) and which associations
//! carry a message for a destination ([`Registry::select`]).
use crate::config::validate::adaptation_of;
use crate::config::{Adaptation, ApplicationServer, Config, Link, Linkset, TenantId, TrafficMode};
use crate::metrics::{
    count_gauge, gauge, link_state_value, set_asp_state, set_association_state, set_linkset, set_m2pa_link_state,
    M2paLinkState, Metrics,
};
use crate::mtp3::route::{egress_of, Availability, Destination, Egress};
use crate::point_code::Variant;
use crate::routing::{gauges_refreshed, state_became, state_became_twice, Router};
use crate::sorted_map::{Key, NameMap, SortedMap};
use crate::tenant::Runtimes;
use crate::text::same;
use vstd::prelude::*;
use vstd::string::*;

verus! {

/// One association's live slot.
#[derive(Clone, Debug)]
pub struct AssocSlot {
    /// The association id.
    pub id: String,
    /// The adaptation layer.
    pub adaptation: Adaptation,
    /// Whether the association is established.
    pub connected: bool,
    /// Whether the adaptation layer is active (ASP-Active, or link in service).
    pub active: bool,
}

impl AssocSlot {
    /// The adaptation is active and the association established.
    pub open spec fn carries(self) -> bool {
        self.active && self.connected
    }

    /// A slot of an association that is not established.
    pub fn new(id: String, adaptation: Adaptation) -> (r: AssocSlot)
        ensures
            r == (AssocSlot { id, adaptation, connected: false, active: false }),
    {
        AssocSlot { id, adaptation, connected: false, active: false }
    }

    /// Marks the association established.
    pub fn set_sender(&mut self)
        ensures
            *final(self) == (AssocSlot { connected: true, ..*old(self) }),
    {
        self.connected = true;
    }

    /// Marks the association gone.
    pub fn clear_sender(&mut self)
        ensures
            *final(self) == (AssocSlot { connected: false, ..*old(self) }),
    {
        self.connected = false;
    }

    /// Marks the adaptation active or inactive.
    pub fn set_active(&mut self, on: bool)
        ensures
            *final(self) == (AssocSlot { active: on, ..*old(self) }),
    {
        self.active = on;
    }

    /// Whether the adaptation is active and the association established.
    pub fn is_carrying(&self) -> (r: bool)
        ensures
            r == self.carries(),
    {
        self.active && self.connected
    }
}

/// A compiled Application Server.
#[derive(Clone, Debug)]
pub struct AsEntry {
    pub name: String,
    pub traffic_mode: TrafficMode,
    pub routing_context: u32,
    pub asps: Vec<String>,
}

/// A compiled linkset.
#[derive(Clone, Debug)]
pub struct LinksetEntry {
    pub name: String,
    pub links: Vec<String>,
}

/// A chosen egress: the association, the routing context to stamp if it serves an
/// Application Server, and the adaptation to frame for.
#[derive(Clone, Debug, PartialEq, Eq)]
pub struct Selected {
    pub assoc: String,
    pub routing_context: Option<u32>,
    pub adaptation: Adaptation,
}

/// What a [`Selected`] egress is.
pub struct Choice {
    pub assoc: Seq<char>,
    pub routing_context: Option<u32>,
    pub adaptation: Adaptation,
}

impl View for Selected {
    type V = Choice;

    open spec fn view(&self) -> Choice {
        Choice {
            assoc: self.assoc@,
            routing_context: self.routing_context,
            adaptation: self.adaptation,
        }
    }
}

/// What a list of chosen egresses is.
pub open spec fn choices(s: Seq<Selected>) -> Seq<Choice> {
    s.map_values(|x: Selected| x@)
}

// ── Which candidates to send on ─────────────────────────────────────────────

/// The positions of the active candidates among the first `n`, in order.
pub open spec fn up(active: Seq<bool>, n: int) -> Seq<usize>
    decreases n,
{
    if n <= 0 {
        Seq::empty()
    } else if active[n - 1] {
        up(active, n - 1).push((n - 1) as usize)
    } else {
        up(active, n - 1)
    }
}

/// The positions to send on: the first active one in override mode, one active
/// one keyed by SLS in loadshare mode, every active one in broadcast mode.
pub open spec fn chosen(mode: TrafficMode, active: Seq<bool>, sls: u8) -> Seq<usize> {
    let all = up(active, active.len() as int);
    if all.len() == 0 {
        Seq::empty()
    } else {
        match mode {
            TrafficMode::Override => seq![all[0]],
            TrafficMode::Loadshare => seq![all[sls as int % all.len() as int]],
            TrafficMode::Broadcast => all,
        }
    }
}

/// Every position in `up` is an active candidate's, in increasing order, and
/// every active candidate's position is there.
pub proof fn up_is_active(active: Seq<bool>, n: int)
    requires
        0 <= n <= active.len() <= usize::MAX,
    ensures
        up(active, n).len() <= n,
        forall|k: int| 0 <= k < up(active, n).len() ==> (#[trigger] up(active, n)[k]) < n && active[up(active, n)[k] as int],
        forall|i: int|
            0 <= i < n && #[trigger] active[i] ==> exists|k: int|
                0 <= k < up(active, n).len() && #[trigger] up(active, n)[k] == i,
    decreases n,
{
    if n > 0 {
        up_is_active(active, n - 1);
        assert forall|i: int| 0 <= i < n && #[trigger] active[i] implies exists|k: int|
            0 <= k < up(active, n).len() && #[trigger] up(active, n)[k] == i by {
            if i < n - 1 {
                let k = choose|k: int| 0 <= k < up(active, n - 1).len() && #[trigger] up(active, n - 1)[k] == i;
                assert(up(active, n)[k] == i);
            } else {
                assert(up(active, n)[up(active, n).len() - 1] == i);
            }
        }
    }
}

/// Chooses the positions to send on.
pub fn choose_egress(mode: TrafficMode, active: &Vec<bool>, sls: u8) -> (r: Vec<usize>)
    ensures
        r@ == chosen(mode, active@, sls),
{
    let mut all: Vec<usize> = Vec::new();
    let mut i: usize = 0;
    while i < active.len()
        invariant
            i <= active@.len(),
            all@ == up(active@, i as int),
        decreases active.len() - i,
    {
        if active[i] {
            all.push(i);
        }
        i += 1;
    }
    if all.len() == 0 {
        proof {
            assert(all@ =~= Seq::<usize>::empty());
        }
        return all;
    }
    match mode {
        TrafficMode::Override => {
            let mut one: Vec<usize> = Vec::new();
            one.push(all[0]);
            proof {
                assert(one@ =~= seq![all@[0]]);
            }
            one
        },
        TrafficMode::Loadshare => {
            let mut one: Vec<usize> = Vec::new();
            one.push(all[(sls as usize) % all.len()]);
            proof {
                assert(one@ =~= seq![all@[sls as int % all@.len() as int]]);
            }
            one
        },
        TrafficMode::Broadcast => all,
    }
}

/// A message goes only to active candidates, and to one whenever there is one.
pub proof fn law_chosen_is_active(mode: TrafficMode, active: Seq<bool>, sls: u8)
    requires
        active.len() <= usize::MAX,
    ensures
        forall|k: int|
            0 <= k < chosen(mode, active, sls).len() ==> (#[trigger] chosen(mode, active, sls)[k]) < active.len() && active[chosen(mode, active, sls)[k] as int],
        (exists|i: int| 0 <= i < active.len() && active[i]) <==> chosen(mode, active, sls).len() > 0,
{
    let all = up(active, active.len() as int);
    up_is_active(active, active.len() as int);
    if all.len() > 0 {
        assert(active[all[0] as int]);
    }
}

/// Broadcast reaches every active candidate; the other modes exactly one.
pub proof fn law_broadcast_reaches_all(active: Seq<bool>, sls: u8, i: int)
    requires
        active.len() <= usize::MAX,
        0 <= i < active.len(),
        active[i],
    ensures
        chosen(TrafficMode::Broadcast, active, sls).contains(i as usize),
        chosen(TrafficMode::Override, active, sls).len() == 1,
        chosen(TrafficMode::Loadshare, active, sls).len() == 1,
{
    up_is_active(active, active.len() as int);
}

/// In loadshare mode the same SLS always takes the same association while the
/// active ones stay the same, and SLS values that agree modulo their number share
/// one.
pub proof fn law_loadshare_keys_on_sls(active: Seq<bool>, a: u8, b: u8)
    requires
        up(active, active.len() as int).len() > 0,
        a as int % up(active, active.len() as int).len() as int == b as int % up(
            active,
            active.len() as int,
        ).len() as int,
    ensures
        chosen(TrafficMode::Loadshare, active, a) == chosen(TrafficMode::Loadshare, active, b),
{
}

// ── The registry ────────────────────────────────────────────────────────────

/// The slots by association id.
pub type Slots = Map<Seq<char>, AssocSlot>;

/// The association is known and carries traffic.
pub open spec fn carrying(slots: Slots, id: Seq<char>) -> bool {
    slots.contains_key(id) && slots[id].carries()
}

/// The slots of the known associations among the first `n` ids, in order.
pub open spec fn known_slots(slots: Slots, ids: Seq<String>, n: int) -> Seq<AssocSlot>
    decreases n,
{
    if n <= 0 {
        Seq::empty()
    } else if slots.contains_key(ids[n - 1]@) {
        known_slots(slots, ids, n - 1).push(slots[ids[n - 1]@])
    } else {
        known_slots(slots, ids, n - 1)
    }
}

/// Which of the slots carry traffic.
pub open spec fn carrying_flags(s: Seq<AssocSlot>) -> Seq<bool> {
    s.map_values(|x: AssocSlot| x.carries())
}

/// The slots at the given positions, as chosen egresses.
pub open spec fn selected_from(s: Seq<AssocSlot>, at: Seq<usize>, rc: Option<u32>) -> Seq<Choice> {
    at.map_values(
        |i: usize|
            Choice {
                assoc: s[i as int].id@,
                routing_context: rc,
                adaptation: s[i as int].adaptation,
            },
    )
}

/// The egresses for a list of associations.
pub open spec fn egresses(
    slots: Slots,
    ids: Seq<String>,
    mode: TrafficMode,
    rc: Option<u32>,
    sls: u8,
) -> Seq<Choice> {
    let known = known_slots(slots, ids, ids.len() as int);
    selected_from(known, chosen(mode, carrying_flags(known), sls), rc)
}

/// The first server from position `from` on with this name.
pub open spec fn server_named(es: Seq<AsEntry>, name: Seq<char>, from: int) -> Option<AsEntry>
    decreases es.len() - from,
{
    if from < 0 || from >= es.len() {
        None
    } else if es[from].name@ == name {
        Some(es[from])
    } else {
        server_named(es, name, from + 1)
    }
}

/// The first linkset from position `from` on with this name.
pub open spec fn linkset_named(es: Seq<LinksetEntry>, name: Seq<char>, from: int) -> Option<
    LinksetEntry,
>
    decreases es.len() - from,
{
    if from < 0 || from >= es.len() {
        None
    } else if es[from].name@ == name {
        Some(es[from])
    } else {
        linkset_named(es, name, from + 1)
    }
}

/// The id is among the strings.
pub open spec fn listed(ids: Seq<String>, id: Seq<char>) -> bool {
    exists|k: int| 0 <= k < ids.len() && #[trigger] ids[k]@ == id
}

/// The first server from position `from` on that this association is an ASP of.
pub open spec fn server_of(es: Seq<AsEntry>, id: Seq<char>, from: int) -> Option<AsEntry>
    decreases es.len() - from,
{
    if from < 0 || from >= es.len() {
        None
    } else if listed(es[from].asps@, id) {
        Some(es[from])
    } else {
        server_of(es, id, from + 1)
    }
}

/// The first linkset from position `from` on that this association is a link of.
pub open spec fn linkset_of(es: Seq<LinksetEntry>, id: Seq<char>, from: int) -> Option<LinksetEntry>
    decreases es.len() - from,
{
    if from < 0 || from >= es.len() {
        None
    } else if listed(es[from].links@, id) {
        Some(es[from])
    } else {
        linkset_of(es, id, from + 1)
    }
}

/// Some association of the list carries traffic.
pub open spec fn any_carrying(slots: Slots, ids: Seq<String>) -> bool {
    exists|k: int| 0 <= k < ids.len() && carrying(slots, #[trigger] ids[k]@)
}

/// How many of the first `n` associations carry traffic.
pub open spec fn carrying_count(slots: Slots, ids: Seq<String>, n: int) -> nat
    decreases n,
{
    if n <= 0 {
        0
    } else {
        carrying_count(slots, ids, n - 1) + if carrying(slots, ids[n - 1]@) {
            1nat
        } else {
            0nat
        }
    }
}

/// The gauge of a slot: 2 carrying, 1 established, 0 neither.
pub open spec fn slot_gauge(s: AssocSlot) -> i64 {
    if s.carries() {
        2
    } else if s.connected {
        1
    } else {
        0
    }
}

/// The link gauge of a slot.
pub open spec fn slot_link_state(s: AssocSlot) -> M2paLinkState {
    if s.carries() {
        M2paLinkState::InService
    } else if s.connected {
        M2paLinkState::Aligned
    } else {
        M2paLinkState::Failed
    }
}

/// The label of an adaptation layer.
pub open spec fn adaptation_label_of(a: Adaptation) -> Seq<char> {
    match a {
        Adaptation::M3ua => "m3ua"@,
        Adaptation::M2pa => "m2pa"@,
        Adaptation::Sua => "sua"@,
    }
}

/// The label of an adaptation layer.
pub fn adaptation_label(a: Adaptation) -> (r: &'static str)
    ensures
        r@ == adaptation_label_of(a),
{
    match a {
        Adaptation::M3ua => "m3ua",
        Adaptation::M2pa => "m2pa",
        Adaptation::Sua => "sua",
    }
}

/// The servers in service after going through the first `n`: up if some ASP
/// carries, down if none does.
pub open spec fn servers_up(slots: Slots, es: Seq<AsEntry>, n: int, up: Set<Seq<char>>) -> Set<
    Seq<char>,
>
    decreases n,
{
    if n <= 0 {
        up
    } else {
        let s = servers_up(slots, es, n - 1, up);
        if any_carrying(slots, es[n - 1].asps@) {
            s.insert(es[n - 1].name@)
        } else {
            s.remove(es[n - 1].name@)
        }
    }
}

/// The linksets in service after going through the first `n`: up if some link
/// carries, down if none does.
pub open spec fn linksets_up(slots: Slots, es: Seq<LinksetEntry>, n: int, up: Set<Seq<char>>) -> Set<
    Seq<char>,
>
    decreases n,
{
    if n <= 0 {
        up
    } else {
        let s = linksets_up(slots, es, n - 1, up);
        if any_carrying(slots, es[n - 1].links@) {
            s.insert(es[n - 1].name@)
        } else {
            s.remove(es[n - 1].name@)
        }
    }
}

/// The ASP gauges after going through the first `k` ASPs of a server.
pub open spec fn asp_gauges(
    slots: Slots,
    e: AsEntry,
    k: int,
    g: Map<(Seq<char>, Seq<char>), i64>,
) -> Map<(Seq<char>, Seq<char>), i64>
    decreases k,
{
    if k <= 0 {
        g
    } else {
        asp_gauges(slots, e, k - 1, g).insert(
            (e.asps@[k - 1]@, e.name@),
            gauge(carrying(slots, e.asps@[k - 1]@)),
        )
    }
}

/// The ASP gauges after going through the first `n` servers.
pub open spec fn server_gauges(
    slots: Slots,
    es: Seq<AsEntry>,
    n: int,
    g: Map<(Seq<char>, Seq<char>), i64>,
) -> Map<(Seq<char>, Seq<char>), i64>
    decreases n,
{
    if n <= 0 {
        g
    } else {
        asp_gauges(
            slots,
            es[n - 1],
            es[n - 1].asps@.len() as int,
            server_gauges(slots, es, n - 1, g),
        )
    }
}

/// The linkset availability gauges after going through the first `n` linksets.
pub open spec fn linkset_gauges(
    slots: Slots,
    es: Seq<LinksetEntry>,
    n: int,
    g: Map<Seq<char>, i64>,
) -> Map<Seq<char>, i64>
    decreases n,
{
    if n <= 0 {
        g
    } else {
        linkset_gauges(slots, es, n - 1, g).insert(
            es[n - 1].name@,
            gauge(any_carrying(slots, es[n - 1].links@)),
        )
    }
}

/// The active-link gauges after going through the first `n` linksets.
pub open spec fn link_count_gauges(
    slots: Slots,
    es: Seq<LinksetEntry>,
    n: int,
    g: Map<Seq<char>, i64>,
) -> Map<Seq<char>, i64>
    decreases n,
{
    if n <= 0 {
        g
    } else {
        link_count_gauges(slots, es, n - 1, g).insert(
            es[n - 1].name@,
            count_gauge(carrying_count(slots, es[n - 1].links@, es[n - 1].links@.len() as int)),
        )
    }
}

/// The association gauges after going through the first `n` slots.
pub open spec fn slot_gauges(g: &Registry, n: int, m: Map<(Seq<char>, Seq<char>), i64>) -> Map<
    (Seq<char>, Seq<char>),
    i64,
>
    decreases n,
{
    if n <= 0 {
        m
    } else {
        let s = g.slot_at(n - 1);
        slot_gauges(g, n - 1, m).insert((s.id@, adaptation_label_of(s.adaptation)), slot_gauge(s))
    }
}

/// The M2PA link gauges after going through the first `n` slots.
pub open spec fn link_gauges(g: &Registry, n: int, m: Map<Seq<char>, i64>) -> Map<Seq<char>, i64>
    decreases n,
{
    if n <= 0 {
        m
    } else {
        let s = g.slot_at(n - 1);
        if s.adaptation == Adaptation::M2pa {
            link_gauges(g, n - 1, m).insert(s.id@, link_state_value(slot_link_state(s)))
        } else {
            link_gauges(g, n - 1, m)
        }
    }
}

/// The availability that follows from the slots: each server and linkset in
/// service exactly when one of its associations carries traffic.
pub open spec fn recomputed(g: &Registry, a: Availability) -> Availability {
    Availability {
        as_up: servers_up(g.slots(), g.servers(), g.servers().len() as int, a.as_up),
        linksets_up: linksets_up(
            g.slots(),
            g.linkset_list(),
            g.linkset_list().len() as int,
            a.linksets_up,
        ),
        ..a
    }
}

/// The transport state of one tenant.
#[derive(Debug)]
pub struct Registry {
    tenant: TenantId,
    variant: Variant,
    assocs: NameMap<AssocSlot>,
    application_servers: Vec<AsEntry>,
    linksets: Vec<LinksetEntry>,
}

impl Registry {
    /// The slots by association id.
    pub closed spec fn slots(&self) -> Slots {
        self.assocs@
    }

    /// The number of slots.
    pub closed spec fn slot_count(&self) -> nat {
        self.assocs.size()
    }

    /// The slot at position `i` in order of id.
    pub closed spec fn slot_at(&self, i: int) -> AssocSlot {
        self.assocs.value_at(i)
    }

    /// The servers in configuration order.
    pub closed spec fn servers(&self) -> Seq<AsEntry> {
        self.application_servers@
    }

    /// The linksets in configuration order.
    pub closed spec fn linkset_list(&self) -> Seq<LinksetEntry> {
        self.linksets@
    }

    /// The tenant this registry serves.
    pub closed spec fn tenant_id(&self) -> Seq<char> {
        self.tenant@
    }

    /// The tenant's variant.
    pub closed spec fn var(&self) -> Variant {
        self.variant
    }

    /// The table is in order.
    pub closed spec fn wf(&self) -> bool {
        self.assocs.wf()
    }

    /// The tenant's availability follows from the slots, and so do the gauges of its
    /// associations, links, servers, linksets and routes. Nothing else changed.
    pub open spec fn refreshed(
        &self,
        before: Runtimes,
        after: Runtimes,
        m: Metrics,
        n: Metrics,
    ) -> bool {
        &&& state_became(
            before,
            after,
            self.tenant_id(),
            recomputed(self, before[self.tenant_id()].route_state@),
        )
        &&& n.association_state@ == slot_gauges(
            self,
            self.slot_count() as int,
            m.association_state@,
        )
        &&& n.m2pa_link_state@ == link_gauges(
            self,
            self.slot_count() as int,
            m.m2pa_link_state@,
        )
        &&& n.asp_state@ == server_gauges(
            self.slots(),
            self.servers(),
            self.servers().len() as int,
            m.asp_state@,
        )
        &&& n.linkset_available@ == linkset_gauges(
            self.slots(),
            self.linkset_list(),
            self.linkset_list().len() as int,
            m.linkset_available@,
        )
        &&& n.linkset_active_links@ == link_count_gauges(
            self.slots(),
            self.linkset_list(),
            self.linkset_list().len() as int,
            m.linkset_active_links@,
        )
        &&& after.contains_key(self.tenant_id()) ==> gauges_refreshed(
            &after[self.tenant_id()],
            m.route_available@,
            n.route_available@,
        )
        &&& n == (Metrics {
            association_state: n.association_state,
            m2pa_link_state: n.m2pa_link_state,
            asp_state: n.asp_state,
            linkset_available: n.linkset_available,
            linkset_active_links: n.linkset_active_links,
            route_available: n.route_available,
            ..m
        })
    }

    /// This is the registry of a tenant at start: a slot for each association,
    /// none established.
    pub open spec fn built_from(&self, config: &Config, id: Seq<char>) -> bool {
        let t = config.tenants@[id];
        &&& self.tenant_id() == id
        &&& self.var() == t.variant
        &&& forall|a: Seq<char>| #[trigger]
            self.slots().contains_key(a) <==> adaptation_of(config.associations@, a) is Some
        &&& forall|a: Seq<char>| #[trigger]
            self.slots().contains_key(a) ==> {
                let s = self.slots()[a];
                s.id@ == a && Some(s.adaptation) == adaptation_of(config.associations@, a)
                    && !s.connected && !s.active
            }
        &&& self.servers().len() == t.application_servers@.len()
        &&& forall|i: int|
            0 <= i < self.servers().len() ==> {
                let e = #[trigger] self.servers()[i];
                let a = t.application_servers@[i];
                e.name == a.name && e.traffic_mode == a.traffic_mode && e.routing_context
                    == a.routing_context && e.asps@ == a.asps@
            }
        &&& self.linkset_list().len() == t.linksets@.len()
        &&& forall|i: int|
            0 <= i < self.linkset_list().len() ==> {
                let e = #[trigger] self.linkset_list()[i];
                let l = t.linksets@[i];
                e.name == l.name && e.links@ == l.links@.map_values(|k: Link| k.assoc)
            }
    }

    /// The registry of a tenant. `None` if the tenant is unknown.
    pub fn build(config: &Config, tenant_id: &str) -> (r: Option<Registry>)
        requires
            config.tenants.wf(),
        ensures
            r is Some <==> config.tenants@.contains_key(tenant_id@),
            r matches Some(g) ==> g.wf() && g.built_from(config, tenant_id@),
    {
        let tenant = match config.tenant(tenant_id) {
            Some(t) => t,
            None => {
                return None;
            },
        };
        let mut assocs: NameMap<AssocSlot> = SortedMap::new();
        let mut i: usize = 0;
        while i < config.associations.len()
            invariant
                i <= config.associations@.len(),
                assocs.wf(),
                forall|a: Seq<char>| #[trigger]
                    assocs@.contains_key(a) <==> adaptation_of(
                        config.associations@.subrange(0, i as int),
                        a,
                    ) is Some,
                forall|a: Seq<char>| #[trigger]
                    assocs@.contains_key(a) ==> {
                        let s = assocs@[a];
                        s.id@ == a && Some(s.adaptation) == adaptation_of(
                            config.associations@.subrange(0, i as int),
                            a,
                        ) && !s.connected && !s.active
                    },
            decreases config.associations.len() - i,
        {
            let a = &config.associations[i];
            assocs.insert(a.id.clone(), AssocSlot::new(a.id.clone(), a.adaptation));
            proof {
                assert(config.associations@.subrange(0, i + 1).drop_last()
                    =~= config.associations@.subrange(0, i as int));
            }
            i += 1;
        }
        proof {
            assert(config.associations@.subrange(0, i as int) =~= config.associations@);
        }
        let mut application_servers: Vec<AsEntry> = Vec::new();
        let mut i: usize = 0;
        while i < tenant.application_servers.len()
            invariant
                i <= tenant.application_servers@.len(),
                application_servers@.len() == i,
                forall|k: int|
                    0 <= k < i ==> {
                        let e = #[trigger] application_servers@[k];
                        let a = tenant.application_servers@[k];
                        e.name == a.name && e.traffic_mode == a.traffic_mode && e.routing_context
                            == a.routing_context && e.asps@ == a.asps@
                    },
            decreases tenant.application_servers.len() - i,
        {
            let a = &tenant.application_servers[i];
            application_servers.push(
                AsEntry {
                    name: a.name.clone(),
                    traffic_mode: a.traffic_mode,
                    routing_context: a.routing_context,
                    asps: copy_ids(&a.asps),
                },
            );
            i += 1;
        }
        let mut linksets: Vec<LinksetEntry> = Vec::new();
        let mut i: usize = 0;
        while i < tenant.linksets.len()
            invariant
                i <= tenant.linksets@.len(),
                linksets@.len() == i,
                forall|k: int|
                    0 <= k < i ==> {
                        let e = #[trigger] linksets@[k];
                        let l = tenant.linksets@[k];
                        e.name == l.name && e.links@ == l.links@.map_values(|x: Link| x.assoc)
                    },
            decreases tenant.linksets.len() - i,
        {
            let l = &tenant.linksets[i];
            linksets.push(LinksetEntry { name: l.name.clone(), links: link_ids(&l.links) });
            i += 1;
        }
        Some(
            Registry {
                tenant: tenant_id.to_owned(),
                variant: tenant.variant,
                assocs,
                application_servers,
                linksets,
            },
        )
    }

    /// The tenant this registry serves.
    pub fn tenant(&self) -> (r: &str)
        ensures
            r@ == self.tenant_id(),
    {
        self.tenant.as_str()
    }

    /// The tenant's variant.
    pub fn variant(&self) -> (r: Variant)
        ensures
            r == self.var(),
    {
        self.variant
    }

    /// The slot of an association.
    pub fn slot(&self, id: &str) -> (r: Option<&AssocSlot>)
        requires
            self.wf(),
        ensures
            r is Some <==> self.slots().contains_key(id@),
            r matches Some(s) ==> *s == self.slots()[id@],
    {
        self.assocs.lookup(id)
    }

    /// Access to the slot of an association.
    pub fn slot_mut(&mut self, id: &str) -> (r: Option<&mut AssocSlot>)
        requires
            old(self).wf(),
        ensures
            match r {
                Some(s) => {
                    &&& old(self).slots().contains_key(id@)
                    &&& *s == old(self).slots()[id@]
                    &&& final(self).wf()
                    &&& final(self).slots() == old(self).slots().insert(id@, *final(s))
                    &&& final(self).servers() == old(self).servers()
                    &&& final(self).linkset_list() == old(self).linkset_list()
                    &&& final(self).tenant_id() == old(self).tenant_id()
                    &&& final(self).var() == old(self).var()
                },
                None => !old(self).slots().contains_key(id@) && *final(self) == *old(self),
            },
    {
        self.assocs.get_mut(&id.to_owned())
    }

    /// The routing context and traffic mode of the server an association is an
    /// ASP of. `None` if it is of none.
    pub fn as_membership(&self, assoc_id: &str) -> (r: Option<(u32, TrafficMode)>)
        ensures
            r == match server_of(self.servers(), assoc_id@, 0) {
                Some(e) => Some((e.routing_context, e.traffic_mode)),
                None => None,
            },
    {
        match self.find_server_of(assoc_id) {
            Some(i) => Some(
                (
                    self.application_servers[i].routing_context,
                    self.application_servers[i].traffic_mode,
                ),
            ),
            None => None,
        }
    }

    fn find_server_of(&self, id: &str) -> (r: Option<usize>)
        ensures
            match r {
                Some(i) => i < self.servers().len() && server_of(self.servers(), id@, 0) == Some(
                    self.servers()[i as int],
                ),
                None => server_of(self.servers(), id@, 0) is None,
            },
    {
        let mut i: usize = 0;
        while i < self.application_servers.len()
            invariant
                i <= self.application_servers@.len(),
                server_of(self.servers(), id@, 0) == server_of(self.servers(), id@, i as int),
            decreases self.application_servers.len() - i,
        {
            if contains_id(&self.application_servers[i].asps, id) {
                return Some(i);
            }
            i += 1;
        }
        None
    }

    /// The destination an association belongs to: the server it is an ASP of, or
    /// the linkset it is a link of. A message that arrives on it came in over that
    /// destination. `None` for an association of neither.
    pub fn inbound_destination(&self, assoc_id: &str) -> (r: Option<Destination>)
        ensures
            egress_of(r) == arrived_over(self, assoc_id@),
    {
        match self.find_server_of(assoc_id) {
            Some(i) => {
                return Some(
                    Destination::ApplicationServer(self.application_servers[i].name.clone()),
                );
            },
            None => {},
        }
        let mut i: usize = 0;
        while i < self.linksets.len()
            invariant
                i <= self.linksets@.len(),
                server_of(self.servers(), assoc_id@, 0) is None,
                linkset_of(self.linkset_list(), assoc_id@, 0) == linkset_of(
                    self.linkset_list(),
                    assoc_id@,
                    i as int,
                ),
            decreases self.linksets.len() - i,
        {
            if contains_id(&self.linksets[i].links, assoc_id) {
                return Some(Destination::Linkset(self.linksets[i].name.clone()));
            }
            i += 1;
        }
        None
    }

    /// The slots of the known associations among some ids.
    fn collect(&self, ids: &Vec<String>) -> (r: Vec<&AssocSlot>)
        requires
            self.wf(),
        ensures
            r@.map_values(|s: &AssocSlot| *s) == known_slots(
                self.slots(),
                ids@,
                ids@.len() as int,
            ),
    {
        let mut out: Vec<&AssocSlot> = Vec::new();
        let mut i: usize = 0;
        proof {
            assert(out@.map_values(|s: &AssocSlot| *s) =~= known_slots(self.slots(), ids@, 0));
        }
        while i < ids.len()
            invariant
                i <= ids@.len(),
                self.wf(),
                out@.map_values(|s: &AssocSlot| *s) == known_slots(self.slots(), ids@, i as int),
            decreases ids.len() - i,
        {
            let ghost before = out@;
            match self.assocs.lookup(ids[i].as_str()) {
                Some(s) => {
                    out.push(s);
                    proof {
                        assert(out@.map_values(|s: &AssocSlot| *s) =~= before.map_values(
                            |s: &AssocSlot| *s,
                        ).push(*s));
                    }
                },
                None => {},
            }
            i += 1;
        }
        out
    }

    fn pick(&self, ids: &Vec<String>, mode: TrafficMode, rc: Option<u32>, sls: u8) -> (r: Vec<
        Selected,
    >)
        requires
            self.wf(),
        ensures
            choices(r@) == egresses(self.slots(), ids@, mode, rc, sls),
    {
        let known = self.collect(ids);
        let ghost model = known_slots(self.slots(), ids@, ids@.len() as int);
        proof {
            assert(known@.len() == model.len());
        }
        let mut active: Vec<bool> = Vec::new();
        let mut i: usize = 0;
        while i < known.len()
            invariant
                i <= known@.len() == model.len(),
                model == known@.map_values(|s: &AssocSlot| *s),
                active@.len() == i,
                forall|k: int| 0 <= k < i ==> active@[k] == (#[trigger] model[k]).carries(),
            decreases known.len() - i,
        {
            proof {
                assert(model[i as int] == *known@[i as int]);
            }
            active.push(known[i].is_carrying());
            i += 1;
        }
        proof {
            assert(active@ =~= carrying_flags(model));
        }
        let at = choose_egress(mode, &active, sls);
        proof {
            law_chosen_is_active(mode, active@, sls);
        }
        let mut out: Vec<Selected> = Vec::new();
        let mut i: usize = 0;
        while i < at.len()
            invariant
                i <= at@.len(),
                model == known@.map_values(|s: &AssocSlot| *s),
                forall|k: int| 0 <= k < at@.len() ==> (#[trigger] at@[k]) < known@.len(),
                out@.len() == i,
                forall|k: int|
                    0 <= k < i ==> (#[trigger] out@[k])@ == (Choice {
                        assoc: model[at@[k] as int].id@,
                        routing_context: rc,
                        adaptation: model[at@[k] as int].adaptation,
                    }),
            decreases at.len() - i,
        {
            let s = known[at[i]];
            proof {
                assert(model[at@[i as int] as int] == *s);
            }
            out.push(Selected { assoc: s.id.clone(), routing_context: rc, adaptation: s.adaptation });
            i += 1;
        }
        proof {
            assert(choices(out@) =~= selected_from(
                model,
                chosen(mode, carrying_flags(model), sls),
                rc,
            ));
        }
        out
    }

    fn refresh_slots(&self, m: &mut Metrics)
        requires
            self.wf(),
            old(m).wf(),
        ensures
            final(m).wf(),
            final(m).association_state@ == slot_gauges(
                self,
                self.slot_count() as int,
                old(m).association_state@,
            ),
            final(m).m2pa_link_state@ == link_gauges(
                self,
                self.slot_count() as int,
                old(m).m2pa_link_state@,
            ),
            *final(m) == (Metrics {
                association_state: final(m).association_state,
                m2pa_link_state: final(m).m2pa_link_state,
                ..*old(m)
            }),
    {
        let mut i: usize = 0;
        while i < self.assocs.len()
            invariant
                i <= self.assocs.size(),
                m.wf(),
                m.association_state@ == slot_gauges(self, i as int, old(m).association_state@),
                m.m2pa_link_state@ == link_gauges(self, i as int, old(m).m2pa_link_state@),
                *m == (Metrics {
                    association_state: m.association_state,
                    m2pa_link_state: m.m2pa_link_state,
                    ..*old(m)
                }),
            decreases self.assocs.size() - i,
        {
            let slot = self.assocs.value(i);
            let state: i64 = if slot.is_carrying() {
                2
            } else if slot.connected {
                1
            } else {
                0
            };
            set_association_state(m, slot.id.as_str(), adaptation_label(slot.adaptation), state);
            match slot.adaptation {
                Adaptation::M2pa => {
                    let link = if slot.is_carrying() {
                        M2paLinkState::InService
                    } else if slot.connected {
                        M2paLinkState::Aligned
                    } else {
                        M2paLinkState::Failed
                    };
                    set_m2pa_link_state(m, slot.id.as_str(), link);
                },
                _ => {},
            }
            i += 1;
        }
    }

    fn is_carrying(&self, id: &str) -> (r: bool)
        requires
            self.wf(),
        ensures
            r == carrying(self.slots(), id@),
    {
        match self.assocs.lookup(id) {
            Some(s) => s.is_carrying(),
            None => false,
        }
    }

    fn count_carrying(&self, ids: &Vec<String>) -> (r: usize)
        requires
            self.wf(),
        ensures
            r == carrying_count(self.slots(), ids@, ids@.len() as int),
            (r > 0) == any_carrying(self.slots(), ids@),
    {
        let mut n: usize = 0;
        let mut i: usize = 0;
        while i < ids.len()
            invariant
                n <= i <= ids@.len(),
                self.wf(),
                n == carrying_count(self.slots(), ids@, i as int),
                (n > 0) == exists|k: int| 0 <= k < i && carrying(self.slots(), #[trigger] ids@[k]@),
            decreases ids.len() - i,
        {
            if self.is_carrying(ids[i].as_str()) {
                n += 1;
                proof {
                    assert(carrying(self.slots(), ids@[i as int]@));
                }
            }
            i += 1;
        }
        n
    }

    /// Refreshes one server: its ASP gauges and whether it is in service.
    fn refresh_server(&self, i: usize, router: &mut Router, m: &mut Metrics)
        requires
            self.wf(),
            i < self.servers().len(),
            old(router).wf(),
            old(m).wf(),
        ensures
            final(router).wf(),
            final(m).wf(),
            final(m).asp_state@ == asp_gauges(
                self.slots(),
                self.servers()[i as int],
                self.servers()[i as int].asps@.len() as int,
                old(m).asp_state@,
            ),
            *final(m) == (Metrics { asp_state: final(m).asp_state, ..*old(m) }),
            state_became(
                old(router).runtimes(),
                final(router).runtimes(),
                self.tenant_id(),
                Availability {
                    as_up: {
                        let up = old(router).runtimes()[self.tenant_id()].route_state@.as_up;
                        if any_carrying(self.slots(), self.servers()[i as int].asps@) {
                            up.insert(self.servers()[i as int].name@)
                        } else {
                            up.remove(self.servers()[i as int].name@)
                        }
                    },
                    ..old(router).runtimes()[self.tenant_id()].route_state@
                },
            ),
    {
        let a = &self.application_servers[i];
        let mut k: usize = 0;
        while k < a.asps.len()
            invariant
                k <= a.asps@.len(),
                self.wf(),
                m.wf(),
                m.asp_state@ == asp_gauges(self.slots(), *a, k as int, old(m).asp_state@),
                *m == (Metrics { asp_state: m.asp_state, ..*old(m) }),
            decreases a.asps.len() - k,
        {
            let active = self.is_carrying(a.asps[k].as_str());
            set_asp_state(m, a.asps[k].as_str(), a.name.as_str(), active);
            k += 1;
        }
        if self.count_carrying(&a.asps) > 0 {
            router.note_as_up(self.tenant.as_str(), a.name.as_str());
        } else {
            router.note_as_down(self.tenant.as_str(), a.name.as_str());
        }
    }

    /// Refreshes one linkset: its gauges and whether it is in service.
    fn refresh_linkset(&self, i: usize, router: &mut Router, m: &mut Metrics)
        requires
            self.wf(),
            i < self.linkset_list().len(),
            old(router).wf(),
            old(m).wf(),
        ensures
            final(router).wf(),
            final(m).wf(),
            final(m).linkset_available@ == old(m).linkset_available@.insert(
                self.linkset_list()[i as int].name@,
                gauge(any_carrying(self.slots(), self.linkset_list()[i as int].links@)),
            ),
            final(m).linkset_active_links@ == old(m).linkset_active_links@.insert(
                self.linkset_list()[i as int].name@,
                count_gauge(
                    carrying_count(
                        self.slots(),
                        self.linkset_list()[i as int].links@,
                        self.linkset_list()[i as int].links@.len() as int,
                    ),
                ),
            ),
            *final(m) == (Metrics {
                linkset_available: final(m).linkset_available,
                linkset_active_links: final(m).linkset_active_links,
                ..*old(m)
            }),
            state_became(
                old(router).runtimes(),
                final(router).runtimes(),
                self.tenant_id(),
                Availability {
                    linksets_up: {
                        let up = old(router).runtimes()[self.tenant_id()].route_state@.linksets_up;
                        if any_carrying(self.slots(), self.linkset_list()[i as int].links@) {
                            up.insert(self.linkset_list()[i as int].name@)
                        } else {
                            up.remove(self.linkset_list()[i as int].name@)
                        }
                    },
                    ..old(router).runtimes()[self.tenant_id()].route_state@
                },
            ),
    {
        let l = &self.linksets[i];
        let n: usize = self.count_carrying(&l.links);
        set_linkset(m, l.name.as_str(), n > 0, n);
        if n > 0 {
            router.note_linkset_up(self.tenant.as_str(), l.name.as_str());
        } else {
            router.note_linkset_down(self.tenant.as_str(), l.name.as_str());
        }
    }

    /// Recomputes what is in service from the slots, tells the router, and
    /// refreshes the gauges: a server is up while an ASP of its carries traffic, a
    /// linkset while a link of its does.
    pub fn recompute(&self, router: &mut Router, m: &mut Metrics)
        requires
            self.wf(),
            old(router).wf(),
            old(m).wf(),
        ensures
            final(router).wf(),
            final(m).wf(),
            self.refreshed(old(router).runtimes(), final(router).runtimes(), *old(m), *final(m)),
    {
        let ghost start = router.runtimes();
        let ghost tid = self.tenant_id();
        let ghost state = start[tid].route_state@;
        self.refresh_slots(m);
        let ghost slotted = *m;
        let mut i: usize = 0;
        while i < self.application_servers.len()
            invariant
                i <= self.servers().len() == self.application_servers@.len(),
                self.wf(),
                router.wf(),
                m.wf(),
                tid == self.tenant_id(),
                state == start[tid].route_state@,
                state_became(
                    start,
                    router.runtimes(),
                    tid,
                    Availability {
                        as_up: servers_up(self.slots(), self.servers(), i as int, state.as_up),
                        ..state
                    },
                ),
                m.asp_state@ == server_gauges(
                    self.slots(),
                    self.servers(),
                    i as int,
                    slotted.asp_state@,
                ),
                *m == (Metrics { asp_state: m.asp_state, ..slotted }),
            decreases self.application_servers.len() - i,
        {
            let ghost before = router.runtimes();
            self.refresh_server(i, router, m);
            proof {
                let now = Availability {
                    as_up: servers_up(self.slots(), self.servers(), i + 1, state.as_up),
                    ..state
                };
                assert(start.dom().contains(tid) == before.dom().contains(tid));
                if start.contains_key(tid) {
                    assert(router.runtimes()[tid].route_state@ == now);
                }
                assert(state_became(before, router.runtimes(), tid, now));
                state_became_twice(
                    start,
                    before,
                    router.runtimes(),
                    tid,
                    Availability {
                        as_up: servers_up(self.slots(), self.servers(), i as int, state.as_up),
                        ..state
                    },
                    now,
                );
            }
            i += 1;
        }
        let ghost served = *m;
        let ghost as_up = servers_up(
            self.slots(),
            self.servers(),
            self.servers().len() as int,
            state.as_up,
        );
        let mut i: usize = 0;
        while i < self.linksets.len()
            invariant
                i <= self.linkset_list().len() == self.linksets@.len(),
                self.wf(),
                router.wf(),
                m.wf(),
                tid == self.tenant_id(),
                state == start[tid].route_state@,
                state_became(
                    start,
                    router.runtimes(),
                    tid,
                    Availability {
                        as_up,
                        linksets_up: linksets_up(
                            self.slots(),
                            self.linkset_list(),
                            i as int,
                            state.linksets_up,
                        ),
                        ..state
                    },
                ),
                m.linkset_available@ == linkset_gauges(
                    self.slots(),
                    self.linkset_list(),
                    i as int,
                    served.linkset_available@,
                ),
                m.linkset_active_links@ == link_count_gauges(
                    self.slots(),
                    self.linkset_list(),
                    i as int,
                    served.linkset_active_links@,
                ),
                *m == (Metrics {
                    linkset_available: m.linkset_available,
                    linkset_active_links: m.linkset_active_links,
                    ..served
                }),
            decreases self.linksets.len() - i,
        {
            let ghost before = router.runtimes();
            self.refresh_linkset(i, router, m);
            proof {
                let now = Availability {
                    as_up,
                    linksets_up: linksets_up(
                        self.slots(),
                        self.linkset_list(),
                        i + 1,
                        state.linksets_up,
                    ),
                    ..state
                };
                assert(start.dom().contains(tid) == before.dom().contains(tid));
                if start.contains_key(tid) {
                    assert(router.runtimes()[tid].route_state@ == now);
                }
                assert(state_became(before, router.runtimes(), tid, now));
                state_became_twice(
                    start,
                    before,
                    router.runtimes(),
                    tid,
                    Availability {
                        as_up,
                        linksets_up: linksets_up(
                            self.slots(),
                            self.linkset_list(),
                            i as int,
                            state.linksets_up,
                        ),
                        ..state
                    },
                    now,
                );
            }
            i += 1;
        }
        router.refresh_route_metrics(m, self.tenant.as_str());
    }

    /// Chooses the associations that carry a message for a destination. A server
    /// honours its traffic mode across its active ASPs; a linkset spreads by SLS
    /// across its links in service. Empty if the destination is unknown or nothing
    /// carries.
    pub fn select(&self, dest: &Destination, sls: u8) -> (r: Vec<Selected>)
        requires
            self.wf(),
        ensures
            choices(r@) == selection(self, dest@, sls),
    {
        match dest {
            Destination::ApplicationServer(name) => {
                let mut i: usize = 0;
                while i < self.application_servers.len()
                    invariant
                        i <= self.application_servers@.len(),
                        self.wf(),
                        dest@ == Egress::ApplicationServer(name@),
                        server_named(self.servers(), name@, 0) == server_named(
                            self.servers(),
                            name@,
                            i as int,
                        ),
                    decreases self.application_servers.len() - i,
                {
                    let a = &self.application_servers[i];
                    if same(a.name.as_str(), name.as_str()) {
                        return self.pick(&a.asps, a.traffic_mode, Some(a.routing_context), sls);
                    }
                    i += 1;
                }
            },
            Destination::Linkset(name) => {
                let mut i: usize = 0;
                while i < self.linksets.len()
                    invariant
                        i <= self.linksets@.len(),
                        self.wf(),
                        dest@ == Egress::Linkset(name@),
                        linkset_named(self.linkset_list(), name@, 0) == linkset_named(
                            self.linkset_list(),
                            name@,
                            i as int,
                        ),
                    decreases self.linksets.len() - i,
                {
                    let l = &self.linksets[i];
                    if same(l.name.as_str(), name.as_str()) {
                        return self.pick(&l.links, TrafficMode::Loadshare, None, sls);
                    }
                    i += 1;
                }
            },
        }
        let none: Vec<Selected> = Vec::new();
        proof {
            assert(choices(none@) =~= Seq::<Choice>::empty());
        }
        none
    }
}

/// The destination an association belongs to.
pub open spec fn arrived_over(g: &Registry, id: Seq<char>) -> Option<Egress> {
    match server_of(g.servers(), id, 0) {
        Some(e) => Some(Egress::ApplicationServer(e.name@)),
        None => match linkset_of(g.linkset_list(), id, 0) {
            Some(e) => Some(Egress::Linkset(e.name@)),
            None => None,
        },
    }
}

/// The associations that carry a message for a destination.
pub open spec fn selection(g: &Registry, dest: Egress, sls: u8) -> Seq<Choice> {
    match dest {
        Egress::ApplicationServer(name) => match server_named(g.servers(), name, 0) {
            Some(e) => egresses(g.slots(), e.asps@, e.traffic_mode, Some(e.routing_context), sls),
            None => Seq::empty(),
        },
        Egress::Linkset(name) => match linkset_named(g.linkset_list(), name, 0) {
            Some(e) => egresses(g.slots(), e.links@, TrafficMode::Loadshare, None, sls),
            None => Seq::empty(),
        },
    }
}

fn copy_ids(v: &Vec<String>) -> (r: Vec<String>)
    ensures
        r@ == v@,
{
    let mut out: Vec<String> = Vec::new();
    let mut i: usize = 0;
    while i < v.len()
        invariant
            i <= v@.len(),
            out@ == v@.subrange(0, i as int),
        decreases v.len() - i,
    {
        out.push(v[i].clone());
        proof {
            assert(out@ =~= v@.subrange(0, i + 1));
        }
        i += 1;
    }
    proof {
        assert(out@ =~= v@);
    }
    out
}

fn link_ids(v: &Vec<Link>) -> (r: Vec<String>)
    ensures
        r@ == v@.map_values(|k: Link| k.assoc),
{
    let mut out: Vec<String> = Vec::new();
    let mut i: usize = 0;
    while i < v.len()
        invariant
            i <= v@.len(),
            out@.len() == i,
            forall|k: int| 0 <= k < i ==> out@[k] == (#[trigger] v@[k]).assoc,
        decreases v.len() - i,
    {
        out.push(v[i].assoc.clone());
        i += 1;
    }
    proof {
        assert(out@ =~= v@.map_values(|k: Link| k.assoc));
    }
    out
}

fn contains_id(ids: &Vec<String>, id: &str) -> (r: bool)
    ensures
        r == listed(ids@, id@),
{
    let mut i: usize = 0;
    while i < ids.len()
        invariant
            i <= ids@.len(),
            forall|k: int| 0 <= k < i ==> (#[trigger] ids@[k])@ != id@,
        decreases ids.len() - i,
    {
        if same(ids[i].as_str(), id) {
            return true;
        }
        i += 1;
    }
    false
}

} // verus!
