//! Routing domains.
//!
//! Each domain has its own MTP3 routes, translation tables and content rules. A
//! decision can lead into another domain; point code and global title are
//! converted when the variants of the two differ.
use crate::config::validate::{linkset_names, server_names};
use crate::config::{Association, Config, NetworkIndicator, Tenant, TenantId, DEFAULT_TENANT};
use crate::content::ContentEngine;
use crate::isup::IsupScreen;
use crate::mtp3::route::{Availability, RouteResolver, RouteState};
use crate::point_code::Variant;
use crate::sccp::convert::{networks_of, GtConverter};
use crate::sccp::gtt::GttResolver;
use crate::sorted_map::{Key, NameMap, SortedMap};
use vstd::prelude::*;
use vstd::string::*;

verus! {

/// The compiled tables of one tenant, and its live availability.
#[derive(Debug)]
pub struct TenantRuntime {
    /// The tenant id.
    pub id: TenantId,
    /// The SS7 variant.
    pub variant: Variant,
    /// The tenant's own point code.
    pub point_code: u32,
    /// The network indicator of messages it originates.
    pub network_indicator: NetworkIndicator,
    /// The MTP3 routes.
    pub routes: RouteResolver,
    /// What is in service, prohibited and congested.
    pub route_state: RouteState,
    /// The translation tables.
    pub gtt: GttResolver,
    /// The E.214/E.164 converter.
    pub converter: GtConverter,
    /// The content rules, if there are any.
    pub content: Option<ContentEngine>,
    /// The ISUP screening, if it is configured.
    pub isup: Option<IsupScreen>,
}

/// The availability a tenant starts with: every server and linkset in service.
pub open spec fn all_up(t: &Tenant) -> Availability {
    Availability {
        as_up: server_names(t).to_set(),
        linksets_up: linkset_names(t).to_set(),
        prohibited: Set::empty(),
        congestion: Map::empty(),
    }
}

impl TenantRuntime {
    /// All tables are in order.
    pub open spec fn wf(&self) -> bool {
        &&& self.routes.wf()
        &&& self.route_state.wf()
        &&& self.gtt.wf()
        &&& self.converter.wf()
        &&& self.content matches Some(c) ==> c.wf()
    }

    /// This is the runtime of a configured tenant, with everything in service.
    pub open spec fn compiled_from(&self, id: Seq<char>, t: &Tenant, assocs: Seq<Association>) -> bool {
        &&& self.id@ == id
        &&& self.variant == t.variant
        &&& self.point_code == t.point_code.0
        &&& self.network_indicator == t.network_indicator
        &&& self.routes.built_from(t, assocs)
        &&& self.route_state@ == all_up(t)
        &&& self.gtt.compiled_from(t.sccp)
        &&& self.converter.networks() == networks_of(t.sccp.gt_conversion.plmn_map@)
        &&& match t.content_routing {
            Some(cr) => self.content matches Some(c) && c.compiled_from(cr),
            None => self.content is None,
        }
        &&& match t.isup_screening {
            Some(s) => self.isup matches Some(c) && c.compiled_from(s),
            None => self.isup is None,
        }
    }

    /// Compiles a configured tenant. Every server and linkset starts in service,
    /// so that a router without a transport resolves.
    pub fn compile(id: &String, tenant: &Tenant, associations: &Vec<Association>) -> (r:
        TenantRuntime)
        ensures
            r.wf(),
            r.compiled_from(id@, tenant, associations@),
    {
        let mut route_state = RouteState::default();
        let ghost servers = server_names(tenant);
        let ghost linksets = linkset_names(tenant);
        let mut i: usize = 0;
        proof {
            assert(servers.subrange(0, 0).to_set() =~= Set::empty());
            assert(linksets.subrange(0, 0).to_set() =~= Set::empty());
        }
        while i < tenant.application_servers.len()
            invariant
                i <= tenant.application_servers@.len(),
                servers == server_names(tenant),
                route_state.wf(),
                route_state@ == (Availability {
                    as_up: servers.subrange(0, i as int).to_set(),
                    linksets_up: Set::empty(),
                    prohibited: Set::empty(),
                    congestion: Map::empty(),
                }),
            decreases tenant.application_servers.len() - i,
        {
            route_state.set_as_up(tenant.application_servers[i].name.as_str());
            proof {
                grow_set(servers, i as int);
            }
            i += 1;
        }
        let mut i: usize = 0;
        proof {
            assert(servers.subrange(0, servers.len() as int) =~= servers);
        }
        while i < tenant.linksets.len()
            invariant
                i <= tenant.linksets@.len(),
                servers == server_names(tenant),
                linksets == linkset_names(tenant),
                route_state.wf(),
                route_state@ == (Availability {
                    as_up: servers.to_set(),
                    linksets_up: linksets.subrange(0, i as int).to_set(),
                    prohibited: Set::empty(),
                    congestion: Map::empty(),
                }),
            decreases tenant.linksets.len() - i,
        {
            route_state.set_linkset_up(tenant.linksets[i].name.as_str());
            proof {
                grow_set(linksets, i as int);
            }
            i += 1;
        }
        proof {
            assert(linksets.subrange(0, linksets.len() as int) =~= linksets);
        }
        TenantRuntime {
            id: id.clone(),
            variant: tenant.variant,
            point_code: tenant.point_code.0,
            network_indicator: tenant.network_indicator,
            routes: RouteResolver::build(tenant, associations),
            route_state,
            gtt: GttResolver::compile(&tenant.sccp),
            converter: GtConverter::from(&tenant.sccp.gt_conversion),
            content: match &tenant.content_routing {
                Some(cr) => Some(ContentEngine::compile(cr)),
                None => None,
            },
            isup: match &tenant.isup_screening {
                Some(s) => Some(IsupScreen::compile(s)),
                None => None,
            },
        }
    }

    /// Whether a hand-off to `other` needs conversion: the variants differ.
    pub fn needs_conversion_to(&self, other: &TenantRuntime) -> (r: bool)
        ensures
            r == (self.variant != other.variant),
    {
        self.variant != other.variant
    }
}

proof fn grow_set(s: Seq<Seq<char>>, i: int)
    requires
        0 <= i < s.len(),
    ensures
        s.subrange(0, i + 1).to_set() == s.subrange(0, i).to_set().insert(s[i]),
{
    let short = s.subrange(0, i);
    let long = s.subrange(0, i + 1);
    assert(long =~= short.push(s[i]));
    assert forall|x: Seq<char>| long.to_set().contains(x) == short.to_set().insert(s[i]).contains(x) by {
        if long.contains(x) {
            let k = choose|k: int| 0 <= k < long.len() && long[k] == x;
            if k < i {
                assert(short[k] == x);
            }
        }
        if short.contains(x) {
            let k = choose|k: int| 0 <= k < short.len() && short[k] == x;
            assert(long[k] == x);
        }
        if x == s[i] {
            assert(long[i] == x);
        }
    }
    assert(long.to_set() =~= short.to_set().insert(s[i]));
}

/// A hand-off from one tenant to another.
#[derive(Clone, Debug, PartialEq, Eq)]
pub struct CrossTenant {
    /// The source tenant.
    pub from: TenantId,
    /// The destination tenant.
    pub to: TenantId,
    /// Whether point code and global title are converted.
    pub conversion: bool,
}

/// The runtimes of a node by tenant.
pub type Runtimes = Map<Seq<char>, TenantRuntime>;

/// Whether a hand-off between two tenants needs conversion, if both are known.
pub open spec fn conversion_between(ts: Runtimes, from: Seq<char>, to: Seq<char>) -> Option<bool> {
    if ts.contains_key(from) && ts.contains_key(to) {
        Some(ts[from].variant != ts[to].variant)
    } else {
        None
    }
}

/// Every tenant's runtime by id.
#[derive(Debug)]
pub struct Tenancy {
    tenants: NameMap<TenantRuntime>,
}

impl Tenancy {
    /// The runtimes by tenant.
    pub closed spec fn runtimes(&self) -> Runtimes {
        self.tenants@
    }

    /// The number of tenants.
    pub closed spec fn size(&self) -> nat {
        self.tenants.size()
    }

    /// The id of the tenant at position `i` in order of name.
    pub closed spec fn id_at(&self, i: int) -> Seq<char> {
        self.tenants.key_at(i)
    }

    /// The table is in order, and every runtime is.
    pub closed spec fn wf(&self) -> bool {
        &&& self.tenants.wf()
        &&& forall|k: Seq<char>| #[trigger] self.tenants@.contains_key(k) ==> self.tenants@[k].wf()
    }

    /// Compiles every tenant of a configuration.
    pub fn build(config: &Config) -> (r: Tenancy)
        requires
            config.tenants.wf(),
        ensures
            r.wf(),
            r.size() == config.tenants.size(),
            r.runtimes().dom() == config.tenants@.dom(),
            forall|k: Seq<char>| #[trigger]
                config.tenants@.contains_key(k) ==> r.runtimes()[k].compiled_from(
                    k,
                    &config.tenants@[k],
                    config.associations@,
                ),
    {
        let mut tenants: NameMap<TenantRuntime> = SortedMap::new();
        let mut i: usize = 0;
        while i < config.tenants.len()
            invariant
                i <= config.tenants.size(),
                config.tenants.wf(),
                tenants.wf(),
                tenants.size() == i,
                forall|k: Seq<char>| #[trigger]
                    tenants@.contains_key(k) <==> config.tenants.has(k) && config.tenants.place(k)
                        < i,
                forall|k: Seq<char>| #[trigger]
                    tenants@.contains_key(k) ==> tenants@[k].wf() && tenants@[k].compiled_from(
                        k,
                        &config.tenants@[k],
                        config.associations@,
                    ),
            decreases config.tenants.size() - i,
        {
            let id = config.tenants.key(i);
            proof {
                config.tenants.lemma_entry(i as int);
            }
            tenants.insert(
                id.clone(),
                TenantRuntime::compile(id, config.tenants.value(i), &config.associations),
            );
            proof {
                assert forall|k: Seq<char>| #[trigger]
                    tenants@.contains_key(k) <==> config.tenants.has(k) && config.tenants.place(k) < i
                        + 1 by {
                    if config.tenants.has(k) && config.tenants.place(k) == i {
                        assert(k == config.tenants.key_at(i as int));
                    }
                }
            }
            i += 1;
        }
        proof {
            assert(tenants@.dom() =~= config.tenants@.dom());
        }
        Tenancy { tenants }
    }

    /// The runtime of a tenant.
    pub fn get(&self, id: &str) -> (r: Option<&TenantRuntime>)
        requires
            self.wf(),
        ensures
            r is Some <==> self.runtimes().contains_key(id@),
            r matches Some(t) ==> *t == self.runtimes()[id@] && t.wf(),
    {
        self.tenants.lookup(id)
    }

    /// Access to the runtime of a tenant.
    pub fn get_mut(&mut self, id: &str) -> (r: Option<&mut TenantRuntime>)
        requires
            old(self).wf(),
        ensures
            match r {
                Some(t) => {
                    &&& old(self).runtimes().contains_key(id@)
                    &&& *t == old(self).runtimes()[id@]
                    &&& t.wf()
                    &&& final(self).runtimes() == old(self).runtimes().insert(id@, *final(t))
                    &&& final(self).size() == old(self).size()
                    &&& final(t).wf() ==> final(self).wf()
                },
                None => !old(self).runtimes().contains_key(id@) && *final(self) == *old(self),
            },
    {
        self.tenants.get_mut(&id.to_owned())
    }

    /// The runtime of the tenant called `default`.
    pub fn default_tenant(&self) -> (r: Option<&TenantRuntime>)
        requires
            self.wf(),
        ensures
            r is Some <==> self.runtimes().contains_key(DEFAULT_TENANT@),
            r matches Some(t) ==> *t == self.runtimes()[DEFAULT_TENANT@] && t.wf(),
    {
        self.get(DEFAULT_TENANT)
    }

    /// The tenant ids in order of name.
    pub fn ids(&self) -> (r: Vec<&String>)
        ensures
            r@.len() == self.size(),
            forall|i: int| 0 <= i < r@.len() ==> (#[trigger] r@[i])@ == self.id_at(i),
    {
        let mut out: Vec<&String> = Vec::new();
        let mut i: usize = 0;
        while i < self.tenants.len()
            invariant
                i <= self.tenants.size(),
                out@.len() == i,
                forall|k: int| 0 <= k < i ==> (#[trigger] out@[k])@ == self.tenants.key_at(k),
            decreases self.tenants.size() - i,
        {
            out.push(self.tenants.key(i));
            i += 1;
        }
        out
    }

    /// The number of tenants.
    pub fn len(&self) -> (r: usize)
        ensures
            r == self.size(),
    {
        self.tenants.len()
    }

    /// Whether there are no tenants.
    pub fn is_empty(&self) -> (r: bool)
        ensures
            r == (self.size() == 0),
    {
        self.tenants.is_empty()
    }

    /// A hand-off from one tenant to another: conversion applies when their
    /// variants differ. `None` if either is unknown.
    pub fn cross_tenant(&self, from: &str, to: &str) -> (r: Option<CrossTenant>)
        requires
            self.wf(),
        ensures
            match conversion_between(self.runtimes(), from@, to@) {
                Some(c) => r matches Some(x) && x.from@ == from@ && x.to@ == to@ && x.conversion == c,
                None => r is None,
            },
    {
        match (self.get(from), self.get(to)) {
            (Some(a), Some(b)) => Some(
                CrossTenant {
                    from: from.to_owned(),
                    to: to.to_owned(),
                    conversion: a.needs_conversion_to(b),
                },
            ),
            _ => None,
        }
    }
}

/// A hand-off needs conversion in one direction exactly when it does in the
/// other, and none within one tenant.
pub proof fn law_conversion_is_symmetric(ts: Runtimes, a: Seq<char>, b: Seq<char>)
    ensures
        conversion_between(ts, a, b) == conversion_between(ts, b, a),
        ts.contains_key(a) ==> conversion_between(ts, a, a) == Some(false),
        conversion_between(ts, a, b) is Some <==> ts.contains_key(a) && ts.contains_key(b),
        ts.contains_key(a) && ts.contains_key(b) ==> (conversion_between(ts, a, b) == Some(true)
            <==> ts[a].variant != ts[b].variant),
{
}

} // verus!
