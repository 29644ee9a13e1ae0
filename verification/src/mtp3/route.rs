//! The MTP3 route resolver: point code to best available egress.
//!
//! An M2PA association's adjacent point code is a full route to that point code
//! via the linkset that carries the link, at priority 0. The configured routes
//! follow, 1 for primary and higher numbers for alternates. A route is eligible
//! while its destination is in service and the point code is not prohibited.
use crate::config::{Adaptation, Association, Linkset, Mtp3Route, Tenant};
use crate::point_code::{PointCode, Variant};
use crate::sorted_map::{Key, NameMap, SortedMap};
use crate::text::{join2, same};
use vstd::prelude::*;
use vstd::string::*;

verus! {

/// A linkset name.
pub type LinksetId = String;

/// A resolved egress: an M3UA Application Server or an M2PA linkset, by name.
#[derive(Clone, Debug, PartialEq, Eq, Hash)]
pub enum Destination {
    /// An M3UA Application Server.
    ApplicationServer(String),
    /// An M2PA linkset.
    Linkset(String),
}

/// What a [`Destination`] names.
pub enum Egress {
    ApplicationServer(Seq<char>),
    Linkset(Seq<char>),
}

impl View for Destination {
    type V = Egress;

    open spec fn view(&self) -> Egress {
        match *self {
            Destination::ApplicationServer(n) => Egress::ApplicationServer(n@),
            Destination::Linkset(n) => Egress::Linkset(n@),
        }
    }
}

impl Egress {
    /// The name.
    pub open spec fn name(self) -> Seq<char> {
        match self {
            Egress::ApplicationServer(n) => n,
            Egress::Linkset(n) => n,
        }
    }

    /// The name with its kind in front.
    pub open spec fn text(self) -> Seq<char> {
        match self {
            Egress::ApplicationServer(n) => "as:"@ + n,
            Egress::Linkset(n) => "linkset:"@ + n,
        }
    }
}

/// What an optional destination names.
pub open spec fn egress_of(d: Option<Destination>) -> Option<Egress> {
    match d {
        Some(x) => Some(x@),
        None => None,
    }
}

impl Destination {
    /// The destination's name.
    pub fn name(&self) -> (r: &str)
        ensures
            r@ == self@.name(),
    {
        match self {
            Destination::ApplicationServer(n) => n.as_str(),
            Destination::Linkset(n) => n.as_str(),
        }
    }

    /// Whether this destination is an Application Server.
    pub fn is_application_server(&self) -> (r: bool)
        ensures
            r == (self@ is ApplicationServer),
    {
        match self {
            Destination::ApplicationServer(_) => true,
            Destination::Linkset(_) => false,
        }
    }

    /// The name with its kind in front: `as:n` or `linkset:n`.
    pub fn to_string(&self) -> (r: String)
        ensures
            r@ == self@.text(),
    {
        match self {
            Destination::ApplicationServer(n) => join2("as:", n.as_str()),
            Destination::Linkset(n) => join2("linkset:", n.as_str()),
        }
    }

    /// Whether two destinations name the same egress.
    pub fn same_as(&self, other: &Destination) -> (r: bool)
        ensures
            r == (self@ == other@),
    {
        match (self, other) {
            (Destination::ApplicationServer(a), Destination::ApplicationServer(b)) => same(
                a.as_str(),
                b.as_str(),
            ),
            (Destination::Linkset(a), Destination::Linkset(b)) => same(a.as_str(), b.as_str()),
            _ => false,
        }
    }

    /// A copy of this destination.
    pub fn copy(&self) -> (r: Destination)
        ensures
            r@ == self@,
    {
        match self {
            Destination::ApplicationServer(n) => Destination::ApplicationServer(n.clone()),
            Destination::Linkset(n) => Destination::Linkset(n.clone()),
        }
    }
}

/// A network-management status of a point code.
#[derive(Clone, Copy, PartialEq, Eq, Structural, Debug)]
pub enum Mtp3Status {
    /// Congested at the given level.
    Congested { level: u8 },
    /// A user part there is unavailable.
    UserPartUnavailable { si: u8, cause: u8 },
}

/// An event from the network layer.
#[derive(Clone, Copy, PartialEq, Eq, Structural, Debug)]
pub enum Mtp3Event {
    /// A message was delivered. It carries no availability change.
    Transfer,
    /// The point code became inaccessible.
    Pause { affected: PointCode },
    /// The point code became accessible.
    Resume { affected: PointCode },
    /// The point code's status changed.
    Status { affected: PointCode, status: Mtp3Status },
}

/// What is in service, prohibited and congested, mathematically.
#[verifier::ext_equal]
pub struct Availability {
    pub as_up: Set<Seq<char>>,
    pub linksets_up: Set<Seq<char>>,
    pub prohibited: Set<u32>,
    pub congestion: Map<u32, u8>,
}

impl Availability {
    /// Whether an egress is in service.
    pub open spec fn available(self, e: Egress) -> bool {
        match e {
            Egress::ApplicationServer(n) => self.as_up.contains(n),
            Egress::Linkset(n) => self.linksets_up.contains(n),
        }
    }

    /// The congestion level of a point code, 0 if it is not congested.
    pub open spec fn level(self, dpc: u32) -> u8 {
        if self.congestion.contains_key(dpc) {
            self.congestion[dpc]
        } else {
            0
        }
    }

    /// What is known after an event: a pause prohibits, a resume allows and
    /// clears congestion, a congestion status sets the level.
    pub open spec fn after(self, event: Mtp3Event) -> Availability {
        match event {
            Mtp3Event::Pause { affected } => Availability {
                prohibited: self.prohibited.insert(affected.value),
                ..self
            },
            Mtp3Event::Resume { affected } => Availability {
                prohibited: self.prohibited.remove(affected.value),
                congestion: self.congestion.remove(affected.value),
                ..self
            },
            Mtp3Event::Status {
                affected,
                status: Mtp3Status::Congested { level },
            } => Availability { congestion: self.congestion.insert(affected.value, level), ..self },
            _ => self,
        }
    }
}

/// Availability fed by network-management events and by servers and linksets
/// going up and down.
#[derive(Clone, Debug)]
pub struct RouteState {
    /// Application Servers in service.
    as_up: NameMap<()>,
    /// Linksets in service.
    linksets_up: NameMap<()>,
    /// Prohibited point codes.
    prohibited: SortedMap<u32, ()>,
    /// Congestion level by point code.
    congestion: SortedMap<u32, u8>,
}

impl View for RouteState {
    type V = Availability;

    closed spec fn view(&self) -> Availability {
        Availability {
            as_up: self.as_up@.dom(),
            linksets_up: self.linksets_up@.dom(),
            prohibited: self.prohibited@.dom(),
            congestion: self.congestion@,
        }
    }
}

impl Default for RouteState {
    /// Nothing in service, nothing prohibited, nothing congested.
    fn default() -> (r: RouteState)
        ensures
            r.wf(),
            r@ == (Availability {
                as_up: Set::empty(),
                linksets_up: Set::empty(),
                prohibited: Set::empty(),
                congestion: Map::empty(),
            }),
    {
        let r = RouteState {
            as_up: SortedMap::new(),
            linksets_up: SortedMap::new(),
            prohibited: SortedMap::new(),
            congestion: SortedMap::new(),
        };
        proof {
            assert(r@.as_up =~= Set::empty());
            assert(r@.linksets_up =~= Set::empty());
            assert(r@.prohibited =~= Set::empty());
        }
        r
    }
}

impl RouteState {
    /// The tables are in order.
    pub closed spec fn wf(&self) -> bool {
        self.as_up.wf() && self.linksets_up.wf() && self.prohibited.wf() && self.congestion.wf()
    }

    /// A state with the given linksets in service, and nothing else.
    pub fn with_linksets_up(linksets: Vec<LinksetId>) -> (r: RouteState)
        ensures
            r.wf(),
            r@.linksets_up == Set::new(
                |n: Seq<char>| exists|i: int| 0 <= i < linksets@.len() && #[trigger] linksets@[i]@ == n,
            ),
            r@ == (Availability {
                as_up: Set::empty(),
                linksets_up: r@.linksets_up,
                prohibited: Set::empty(),
                congestion: Map::empty(),
            }),
    {
        let mut s = RouteState::default();
        let mut i: usize = 0;
        proof {
            assert(s@.linksets_up =~= Set::new(
                |n: Seq<char>| exists|k: int| 0 <= k < 0 && #[trigger] linksets@[k]@ == n,
            ));
        }
        while i < linksets.len()
            invariant
                i <= linksets@.len(),
                s.wf(),
                s@.linksets_up == Set::new(
                    |n: Seq<char>| exists|k: int| 0 <= k < i && #[trigger] linksets@[k]@ == n,
                ),
                s@ == (Availability {
                    as_up: Set::empty(),
                    linksets_up: s@.linksets_up,
                    prohibited: Set::empty(),
                    congestion: Map::empty(),
                }),
            decreases linksets.len() - i,
        {
            let ghost before = s@.linksets_up;
            s.set_linkset_up(linksets[i].as_str());
            proof {
                let now = Set::new(
                    |n: Seq<char>| exists|k: int| 0 <= k < i + 1 && #[trigger] linksets@[k]@ == n,
                );
                assert forall|n: Seq<char>| s@.linksets_up.contains(n) == now.contains(n) by {
                    if before.contains(n) {
                        let k = choose|k: int| 0 <= k < i && #[trigger] linksets@[k]@ == n;
                        assert(0 <= k < i + 1 && linksets@[k]@ == n);
                    }
                    if n == linksets@[i as int]@ {
                        assert(now.contains(n));
                    }
                }
                assert(s@.linksets_up =~= now);
            }
            i += 1;
        }
        s
    }

    /// Brings an Application Server up.
    pub fn set_as_up(&mut self, name: &str)
        requires
            old(self).wf(),
        ensures
            final(self).wf(),
            final(self)@ == (Availability { as_up: old(self)@.as_up.insert(name@), ..old(self)@ }),
    {
        let ghost before = self@;
        self.as_up.insert(name.to_owned(), ());
        proof {
            assert(self@.as_up =~= before.as_up.insert(name@));
        }
    }

    /// Brings an Application Server down.
    pub fn set_as_down(&mut self, name: &str)
        requires
            old(self).wf(),
        ensures
            final(self).wf(),
            final(self)@ == (Availability { as_up: old(self)@.as_up.remove(name@), ..old(self)@ }),
    {
        let ghost before = self@;
        self.as_up.remove(&name.to_owned());
        proof {
            assert(self@.as_up =~= before.as_up.remove(name@));
        }
    }

    /// Whether an Application Server is in service.
    pub fn is_as_up(&self, name: &str) -> (r: bool)
        requires
            self.wf(),
        ensures
            r == self@.as_up.contains(name@),
    {
        self.as_up.holds(name)
    }

    /// Brings a linkset up.
    pub fn set_linkset_up(&mut self, linkset: &str)
        requires
            old(self).wf(),
        ensures
            final(self).wf(),
            final(self)@ == (Availability {
                linksets_up: old(self)@.linksets_up.insert(linkset@),
                ..old(self)@
            }),
    {
        let ghost before = self@;
        self.linksets_up.insert(linkset.to_owned(), ());
        proof {
            assert(self@.linksets_up =~= before.linksets_up.insert(linkset@));
        }
    }

    /// Brings a linkset down.
    pub fn set_linkset_down(&mut self, linkset: &str)
        requires
            old(self).wf(),
        ensures
            final(self).wf(),
            final(self)@ == (Availability {
                linksets_up: old(self)@.linksets_up.remove(linkset@),
                ..old(self)@
            }),
    {
        let ghost before = self@;
        self.linksets_up.remove(&linkset.to_owned());
        proof {
            assert(self@.linksets_up =~= before.linksets_up.remove(linkset@));
        }
    }

    /// Whether a linkset is in service.
    pub fn is_linkset_up(&self, linkset: &str) -> (r: bool)
        requires
            self.wf(),
        ensures
            r == self@.linksets_up.contains(linkset@),
    {
        self.linksets_up.holds(linkset)
    }

    /// Brings every Application Server and linkset down.
    pub fn set_all_down(&mut self)
        requires
            old(self).wf(),
        ensures
            final(self).wf(),
            final(self)@ == (Availability {
                as_up: Set::empty(),
                linksets_up: Set::empty(),
                ..old(self)@
            }),
    {
        self.as_up = SortedMap::new();
        self.linksets_up = SortedMap::new();
        proof {
            assert(self@.as_up =~= Set::empty());
            assert(self@.linksets_up =~= Set::empty());
        }
    }

    /// Whether a destination is in service.
    pub fn is_available(&self, dest: &Destination) -> (r: bool)
        requires
            self.wf(),
        ensures
            r == self@.available(dest@),
    {
        match dest {
            Destination::ApplicationServer(n) => self.is_as_up(n.as_str()),
            Destination::Linkset(n) => self.is_linkset_up(n.as_str()),
        }
    }

    /// Whether a point code is prohibited.
    pub fn is_prohibited(&self, dpc: PointCode) -> (r: bool)
        requires
            self.wf(),
        ensures
            r == self@.prohibited.contains(dpc.value),
    {
        self.prohibited.contains_key(&dpc.value())
    }

    /// The congestion level of a point code, 0 if it is not congested.
    pub fn congestion(&self, dpc: PointCode) -> (r: u8)
        requires
            self.wf(),
        ensures
            r == self@.level(dpc.value),
    {
        match self.congestion.get(&dpc.value()) {
            Some(level) => *level,
            None => 0,
        }
    }

    /// Folds a network-management event into the state.
    pub fn apply_event(&mut self, event: &Mtp3Event)
        requires
            old(self).wf(),
        ensures
            final(self).wf(),
            final(self)@ == old(self)@.after(*event),
    {
        let ghost before = self@;
        match event {
            Mtp3Event::Pause { affected } => {
                self.prohibited.insert(affected.value(), ());
            },
            Mtp3Event::Resume { affected } => {
                self.prohibited.remove(&affected.value());
                self.congestion.remove(&affected.value());
            },
            Mtp3Event::Status { affected, status } => {
                match status {
                    Mtp3Status::Congested { level } => {
                        self.congestion.insert(affected.value(), *level);
                    },
                    Mtp3Status::UserPartUnavailable { .. } => {},
                }
            },
            Mtp3Event::Transfer => {},
        }
        proof {
            assert(self@ =~= before.after(*event));
        }
    }
}

/// One candidate route to a point code.
#[derive(Clone, Debug)]
pub struct Candidate {
    pub dest: Destination,
    pub priority: u8,
}

/// What a [`Candidate`] is.
pub struct Choice {
    pub dest: Egress,
    pub priority: u8,
}

impl View for Candidate {
    type V = Choice;

    open spec fn view(&self) -> Choice {
        Choice { dest: self.dest@, priority: self.priority }
    }
}

/// What a list of candidates is.
pub open spec fn choices(s: Seq<Candidate>) -> Seq<Choice> {
    s.map_values(|c: Candidate| c@)
}

/// Candidate `i` is the one to use: it is available, and every other available
/// one has a higher priority number, or the same and comes later.
pub open spec fn is_best(cs: Seq<Choice>, a: Availability, i: int) -> bool {
    &&& 0 <= i < cs.len()
    &&& a.available(cs[i].dest)
    &&& forall|j: int|
        0 <= j < cs.len() && a.available((#[trigger] cs[j]).dest) ==> cs[i].priority < cs[j].priority
            || (cs[i].priority == cs[j].priority && i <= j)
}

/// The egress to use among the candidates for a point code, if any: none while
/// the point code is prohibited.
pub open spec fn best_egress(cs: Seq<Choice>, a: Availability, dpc: u32) -> Option<Egress> {
    if !a.prohibited.contains(dpc) && (exists|i: int| is_best(cs, a, i)) {
        Some(cs[choose|i: int| is_best(cs, a, i)].dest)
    } else {
        None
    }
}

/// At most one candidate is the best.
pub proof fn best_unique(cs: Seq<Choice>, a: Availability, i: int, j: int)
    requires
        is_best(cs, a, i),
        is_best(cs, a, j),
    ensures
        i == j,
{
    assert(a.available(cs[i].dest));
    assert(a.available(cs[j].dest));
}

// ── The table built from the configuration ──────────────────────────────────

/// The adjacent point code of the M2PA association called `id`.
pub open spec fn adjacent_of(assocs: Seq<Association>, id: Seq<char>) -> Option<u32>
    decreases assocs.len(),
{
    if assocs.len() == 0 {
        None
    } else {
        let a = assocs.last();
        if a.adaptation == Adaptation::M2pa && a.adjacent_pc is Some && a.id@ == id {
            Some(a.adjacent_pc->Some_0.0)
        } else {
            adjacent_of(assocs.drop_last(), id)
        }
    }
}

/// The implicit routes of the first `n` links of a linkset, with their point codes.
pub open spec fn link_entries(assocs: Seq<Association>, l: Linkset, n: int) -> Seq<(u32, Choice)>
    decreases n,
{
    if n <= 0 {
        Seq::empty()
    } else {
        let r = link_entries(assocs, l, n - 1);
        match adjacent_of(assocs, l.links@[n - 1].assoc@) {
            Some(pc) => r.push((pc, Choice { dest: Egress::Linkset(l.name@), priority: 0 })),
            None => r,
        }
    }
}

/// The implicit routes of the first `n` linksets.
pub open spec fn adjacent_entries(assocs: Seq<Association>, ls: Seq<Linkset>, n: int) -> Seq<
    (u32, Choice),
>
    decreases n,
{
    if n <= 0 {
        Seq::empty()
    } else {
        adjacent_entries(assocs, ls, n - 1) + link_entries(
            assocs,
            ls[n - 1],
            ls[n - 1].links@.len() as int,
        )
    }
}

/// The destination a configured route names.
pub open spec fn route_egress(r: Mtp3Route) -> Option<Egress> {
    match r.as_ {
        Some(a) => Some(Egress::ApplicationServer(a@)),
        None => match r.linkset {
            Some(l) => Some(Egress::Linkset(l@)),
            None => None,
        },
    }
}

/// The configured routes among the first `n`.
pub open spec fn explicit_entries(rs: Seq<Mtp3Route>, n: int) -> Seq<(u32, Choice)>
    decreases n,
{
    if n <= 0 {
        Seq::empty()
    } else {
        let r = explicit_entries(rs, n - 1);
        match route_egress(rs[n - 1]) {
            Some(e) => r.push((rs[n - 1].dpc.0, Choice { dest: e, priority: rs[n - 1].priority })),
            None => r,
        }
    }
}

/// All routes of a tenant, in table order: the implicit ones, then the
/// configured ones.
pub open spec fn all_entries(t: &Tenant, assocs: Seq<Association>) -> Seq<(u32, Choice)> {
    adjacent_entries(assocs, t.linksets@, t.linksets@.len() as int) + explicit_entries(
        t.mtp3_routes@,
        t.mtp3_routes@.len() as int,
    )
}

/// The routes to one point code, in table order.
pub open spec fn routes_to(entries: Seq<(u32, Choice)>, dpc: u32) -> Seq<Choice>
    decreases entries.len(),
{
    if entries.len() == 0 {
        Seq::empty()
    } else {
        let r = routes_to(entries.drop_last(), dpc);
        if entries.last().0 == dpc {
            r.push(entries.last().1)
        } else {
            r
        }
    }
}

/// The routes of one tenant: point code to candidates.
#[derive(Clone, Debug)]
pub struct RouteResolver {
    variant: Variant,
    routes: SortedMap<u32, Vec<Candidate>>,
}

impl RouteResolver {
    /// The variant these routes are keyed under.
    pub closed spec fn var(&self) -> Variant {
        self.variant
    }

    /// The candidates for a point code, in table order.
    pub closed spec fn candidates(&self, dpc: u32) -> Seq<Choice> {
        if self.routes@.contains_key(dpc) {
            choices(self.routes@[dpc]@)
        } else {
            Seq::empty()
        }
    }

    /// The table is in order and holds no empty candidate list.
    pub closed spec fn wf(&self) -> bool {
        &&& self.routes.wf()
        &&& forall|d: u32| #[trigger]
            self.routes@.contains_key(d) ==> self.routes@[d]@.len() > 0
    }

    /// The egress that a point code resolves to.
    pub open spec fn resolved_to(&self, dpc: u32, a: Availability) -> Option<Egress> {
        best_egress(self.candidates(dpc), a, dpc)
    }

    /// Appends a candidate for a point code.
    fn push(&mut self, dpc: u32, c: Candidate)
        requires
            old(self).wf(),
        ensures
            final(self).wf(),
            final(self).var() == old(self).var(),
            final(self).candidates(dpc) == old(self).candidates(dpc).push(c@),
            forall|d: u32|
                d != dpc ==> #[trigger] final(self).candidates(d) == old(self).candidates(d),
    {
        let ghost before = *self;
        let ghost model = c@;
        match self.routes.get_mut(&dpc) {
            Some(list) => {
                list.push(c);
            },
            None => {
                let mut list: Vec<Candidate> = Vec::new();
                list.push(c);
                self.routes.insert(dpc, list);
            },
        }
        proof {
            assert(self.candidates(dpc) =~= before.candidates(dpc).push(model));
        }
    }

    /// This is the table of a tenant.
    pub open spec fn built_from(&self, tenant: &Tenant, associations: Seq<Association>) -> bool {
        &&& self.var() == tenant.variant
        &&& forall|d: u32| #[trigger]
            self.candidates(d) == routes_to(all_entries(tenant, associations), d)
    }

    /// Builds the table of a tenant: for each point code the implicit adjacent
    /// routes, then the configured ones, in order.
    pub fn build(tenant: &Tenant, associations: &Vec<Association>) -> (r: RouteResolver)
        ensures
            r.wf(),
            r.built_from(tenant, associations@),
    {
        let mut r = RouteResolver { variant: tenant.variant, routes: SortedMap::new() };
        let mut i: usize = 0;
        while i < tenant.linksets.len()
            invariant
                i <= tenant.linksets@.len(),
                r.wf(),
                r.var() == tenant.variant,
                forall|d: u32| #[trigger]
                    r.candidates(d) == routes_to(
                        adjacent_entries(associations@, tenant.linksets@, i as int),
                        d,
                    ),
            decreases tenant.linksets.len() - i,
        {
            let l = &tenant.linksets[i];
            let ghost done = adjacent_entries(associations@, tenant.linksets@, i as int);
            let mut k: usize = 0;
            proof {
                assert(done + link_entries(associations@, *l, 0) =~= done);
            }
            while k < l.links.len()
                invariant
                    k <= l.links@.len(),
                    r.wf(),
                    r.var() == tenant.variant,
                    forall|d: u32| #[trigger]
                        r.candidates(d) == routes_to(
                            done + link_entries(associations@, *l, k as int),
                            d,
                        ),
                decreases l.links.len() - k,
            {
                let ghost so_far = done + link_entries(associations@, *l, k as int);
                match find_adjacent(associations, l.links[k].assoc.as_str()) {
                    Some(pc) => {
                        let c = Candidate { dest: Destination::Linkset(l.name.clone()), priority: 0 };
                        let ghost e = (pc, c@);
                        r.push(pc, c);
                        proof {
                            assert(done + link_entries(associations@, *l, k + 1) =~= so_far.push(e));
                            assert(so_far.push(e).drop_last() =~= so_far);
                        }
                    },
                    None => {
                        proof {
                            assert(done + link_entries(associations@, *l, k + 1) =~= so_far);
                        }
                    },
                }
                k += 1;
            }
            i += 1;
        }
        let ghost adjacent = adjacent_entries(
            associations@,
            tenant.linksets@,
            tenant.linksets@.len() as int,
        );
        let mut i: usize = 0;
        proof {
            assert(adjacent + explicit_entries(tenant.mtp3_routes@, 0) =~= adjacent);
        }
        while i < tenant.mtp3_routes.len()
            invariant
                i <= tenant.mtp3_routes@.len(),
                r.wf(),
                r.var() == tenant.variant,
                forall|d: u32| #[trigger]
                    r.candidates(d) == routes_to(
                        adjacent + explicit_entries(tenant.mtp3_routes@, i as int),
                        d,
                    ),
            decreases tenant.mtp3_routes.len() - i,
        {
            let route = &tenant.mtp3_routes[i];
            let ghost so_far = adjacent + explicit_entries(tenant.mtp3_routes@, i as int);
            let dest = match &route.as_ {
                Some(a) => Some(Destination::ApplicationServer(a.clone())),
                None => match &route.linkset {
                    Some(l) => Some(Destination::Linkset(l.clone())),
                    None => None,
                },
            };
            match dest {
                Some(d) => {
                    let c = Candidate { dest: d, priority: route.priority };
                    let ghost e = (route.dpc.0, c@);
                    r.push(route.dpc.0, c);
                    proof {
                        assert(adjacent + explicit_entries(tenant.mtp3_routes@, i + 1)
                            =~= so_far.push(e));
                        assert(so_far.push(e).drop_last() =~= so_far);
                    }
                },
                None => {
                    proof {
                        assert(adjacent + explicit_entries(tenant.mtp3_routes@, i + 1) =~= so_far);
                    }
                },
            }
            i += 1;
        }
        r
    }

    /// The variant these routes are keyed under.
    pub fn variant(&self) -> (r: Variant)
        ensures
            r == self.var(),
    {
        self.variant
    }

    /// The list holds each point code that has a route once, in increasing order.
    pub open spec fn lists(&self, s: Seq<u32>) -> bool {
        &&& forall|i: int, j: int| 0 <= i < j < s.len() ==> s[i] < s[j]
        &&& forall|d: u32| s.contains(d) <==> self.candidates(d).len() > 0
    }

    /// The point codes that have a route, in increasing order.
    pub fn dpcs(&self) -> (r: Vec<u32>)
        requires
            self.wf(),
        ensures
            self.lists(r@),
    {
        let mut out: Vec<u32> = Vec::new();
        let mut i: usize = 0;
        while i < self.routes.len()
            invariant
                i <= self.routes.size(),
                self.routes.wf(),
                out@.len() == i,
                forall|k: int| 0 <= k < i ==> out@[k] == #[trigger] self.routes.key_at(k),
            decreases self.routes.size() - i,
        {
            out.push(*self.routes.key(i));
            i += 1;
        }
        proof {
            assert forall|i: int, j: int| 0 <= i < j < out@.len() implies out@[i] < out@[j] by {
                assert(u32::before(self.routes.key_at(i), self.routes.key_at(j)));
            }
            assert forall|d: u32| out@.contains(d) <==> self.candidates(d).len() > 0 by {
                if out@.contains(d) {
                    let k = choose|k: int| 0 <= k < out@.len() && out@[k] == d;
                    self.routes.lemma_entry(k);
                    assert(self.routes.key_at(k) == d);
                }
                if self.candidates(d).len() > 0 {
                    assert(self.routes.has(d));
                    let k = self.routes.place(d);
                    assert(out@[k] == d);
                }
            }
        }
        out
    }

    /// Resolves a point code to the best available destination: the available
    /// candidate with the lowest priority number, the earliest in the table
    /// among equals. `None` if the point code is prohibited, has no route, or
    /// every candidate is down.
    pub fn resolve(&self, dpc: PointCode, state: &RouteState) -> (r: Option<Destination>)
        requires
            self.wf(),
            state.wf(),
        ensures
            egress_of(r) == self.resolved_to(dpc.value, state@),
    {
        if state.is_prohibited(dpc) {
            return None;
        }
        let list = match self.routes.get(&dpc.value()) {
            Some(l) => l,
            None => {
                return None;
            },
        };
        let ghost cs = self.candidates(dpc.value);
        let mut best: Option<usize> = None;
        let mut i: usize = 0;
        while i < list.len()
            invariant
                i <= list@.len(),
                state.wf(),
                cs == choices(list@),
                best matches Some(b) ==> b < i && state@.available(cs[b as int].dest) && (forall|
                    j: int,
                |
                    0 <= j < i && state@.available((#[trigger] cs[j]).dest) ==> cs[b as int].priority
                        < cs[j].priority || (cs[b as int].priority == cs[j].priority && b <= j)),
                best is None ==> forall|j: int|
                    0 <= j < i ==> !state@.available((#[trigger] cs[j]).dest),
            decreases list.len() - i,
        {
            proof {
                assert(cs[i as int] == list@[i as int]@);
            }
            if state.is_available(&list[i].dest) {
                match best {
                    Some(b) => {
                        proof {
                            assert(cs[b as int] == list@[b as int]@);
                        }
                        if list[i].priority < list[b].priority {
                            best = Some(i);
                        }
                    },
                    None => {
                        best = Some(i);
                    },
                }
            }
            i += 1;
        }
        match best {
            Some(b) => {
                proof {
                    assert(is_best(cs, state@, b as int));
                    let x = choose|x: int| is_best(cs, state@, x);
                    best_unique(cs, state@, x, b as int);
                }
                Some(list[b].dest.copy())
            },
            None => None,
        }
    }

    /// Whether there is any route to a point code, available or not.
    pub fn has_route(&self, dpc: PointCode) -> (r: bool)
        requires
            self.wf(),
        ensures
            r == (self.candidates(dpc.value).len() > 0),
    {
        self.routes.contains_key(&dpc.value())
    }

    /// This is the table `before` with one more choice for a point code.
    pub open spec fn adds_to(&self, before: RouteResolver, dpc: u32, c: Choice) -> bool {
        &&& self.candidates(dpc) == with_choice(before.candidates(dpc), c)
        &&& forall|d: u32|
            d != dpc ==> #[trigger] self.candidates(d) == before.candidates(d)
    }

    /// Adds a route to a point code. It changes nothing if the same destination
    /// is already there with the same priority.
    pub fn add(&mut self, dpc: u32, dest: Destination, priority: u8)
        requires
            old(self).wf(),
        ensures
            final(self).wf(),
            final(self).var() == old(self).var(),
            final(self).adds_to(*old(self), dpc, Choice { dest: dest@, priority }),
    {
        let c = Candidate { dest, priority };
        let known = match self.routes.get(&dpc) {
            Some(list) => holds_candidate(list, &c),
            None => false,
        };
        if !known {
            self.push(dpc, c);
        }
    }
}

/// A candidate list with a choice in it: appended unless it is there already.
pub open spec fn with_choice(cs: Seq<Choice>, c: Choice) -> Seq<Choice> {
    if cs.contains(c) {
        cs
    } else {
        cs.push(c)
    }
}

fn holds_candidate(list: &Vec<Candidate>, c: &Candidate) -> (r: bool)
    ensures
        r == choices(list@).contains(c@),
{
    let mut i: usize = 0;
    while i < list.len()
        invariant
            i <= list@.len(),
            forall|k: int| 0 <= k < i ==> (#[trigger] list@[k])@ != c@,
        decreases list.len() - i,
    {
        if list[i].priority == c.priority && list[i].dest.same_as(&c.dest) {
            proof {
                assert(choices(list@)[i as int] == c@);
            }
            return true;
        }
        i += 1;
    }
    proof {
        assert forall|k: int| 0 <= k < choices(list@).len() implies choices(list@)[k] != c@ by {
            assert(list@[k]@ != c@);
        }
    }
    false
}

fn find_adjacent(assocs: &Vec<Association>, id: &str) -> (r: Option<u32>)
    ensures
        r == adjacent_of(assocs@, id@),
{
    let mut n: usize = assocs.len();
    proof {
        assert(assocs@.subrange(0, n as int) =~= assocs@);
    }
    while n > 0
        invariant
            n <= assocs@.len(),
            adjacent_of(assocs@, id@) == adjacent_of(assocs@.subrange(0, n as int), id@),
        decreases n,
    {
        proof {
            assert(assocs@.subrange(0, n as int).drop_last() =~= assocs@.subrange(0, n - 1));
        }
        let a = &assocs[n - 1];
        let m2pa = match a.adaptation {
            Adaptation::M2pa => true,
            _ => false,
        };
        if m2pa {
            match a.adjacent_pc {
                Some(pc) => {
                    if same(a.id.as_str(), id) {
                        return Some(pc.0);
                    }
                },
                None => {},
            }
        }
        n -= 1;
    }
    None
}

} // verus!
