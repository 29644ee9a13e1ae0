//! The node that a script programs: its router, its dialogue engine, and the
//! round trip of messages through it.
use crate::config::{
    ni_bits, Config, ContentRule, GttMatch, GttRule, NetworkIndicator, Node as NodeSettings,
    RawFile, RouteTarget, Tenant, DEFAULT_TENANT,
};
use crate::content::engine::{members, table_members, with_member, CompiledRule, ContentEngine, Tables};
use crate::dialogue::engine::{
    id_number, opening_op, DialogueEngine, HandledBy, OutgoingBegin, RecordModel, Registrations,
    TerminationHandler,
};
use crate::dialogue::handle::{carrier, copy_arcs, units, AddressingModel, Dialogue};
use crate::dialogue::turn::{turn_of, IncomingOp, PeerTurn};
use crate::metrics::Metrics;
use crate::mtp3::route::{with_choice, Choice, Destination, Egress};
use crate::point_code::{RawPc, Variant};
use crate::python::builders::MapAcHandle;
use crate::python::codec::octet_lists;
use crate::python::command::{StagedInvoke, StagedResult};
use crate::python::error::{Refusal, SigtranError};
use crate::python::operations::{operation_code, operation_op_code};
use crate::python::peer::PyDecoded;
use crate::routing::Router;
use crate::sccp::message::{
    sccp_decoded, sccp_encoded, slice_text, AddressModel, PartyAddress, PartyTitle, SccpForm,
    SccpHead, TitleModel, Unitdata,
};
use crate::tenant::{Runtimes, TenantRuntime};
use crate::transaction::{
    arcs, copy_some, encode_transaction, octets, staged_models, tcap_decode, tcap_decoded,
    transaction_octets, Outgoing, OutgoingModel, Staged, StagedModel, TcKind, Unwritten,
    UnwrittenModel,
};
use crate::transport::framing::SI_SCCP;
use crate::transport::msu::{copy_octets, Msu, MsuModel};
use vstd::prelude::*;
use vstd::string::*;

verus! {

// ── Addresses ───────────────────────────────────────────────────────────────

/// An SCCP address that a script built.
#[derive(Clone, Debug, PartialEq, Eq)]
pub struct Address {
    /// The address.
    pub inner: PartyAddress,
}

impl Address {
    /// The digits of the global title, if it has one.
    pub fn digits(&self) -> (r: Option<&str>)
        ensures
            slice_text(r) == self.inner@.global_title.digits(),
    {
        self.inner.global_title.digits()
    }

    /// The subsystem number, if it is set.
    pub fn ssn(&self) -> (r: Option<u8>)
        ensures
            r == self.inner@.ssn,
    {
        self.inner.ssn
    }
}

/// The address of digits: an international E.164 title with nature of address.
pub open spec fn gt_model(digits: Seq<char>, ssn: Option<u8>) -> AddressModel {
    AddressModel {
        route_on_ssn: false,
        point_code: None,
        ssn,
        global_title: TitleModel::Gt0100 {
            translation_type: 0,
            numbering_plan: 1,
            encoding_scheme: 1,
            nature_of_address: 4,
            digits,
        },
    }
}

/// The address of digits.
pub fn gt_address(digits: &str, ssn: Option<u8>) -> (r: PartyAddress)
    ensures
        r@ == gt_model(digits@, ssn),
{
    PartyAddress::with_gt(
        PartyTitle::Gt0100 {
            translation_type: 0,
            numbering_plan: 1,
            encoding_scheme: 1,
            nature_of_address: 4,
            digits: digits.to_owned(),
        },
        ssn,
    )
}

// ── The node ────────────────────────────────────────────────────────────────

/// A tenant before any configuration: point code 1 under the ITU variant on the
/// international network, with empty tables.
pub open spec fn is_unconfigured(t: Tenant) -> bool {
    &&& t.point_code == RawPc(1)
    &&& t.variant == Variant::Itu
    &&& t.network_indicator == NetworkIndicator::International
    &&& t.application_servers@.len() == 0
    &&& t.linksets@.len() == 0
    &&& t.mtp3_routes@.len() == 0
    &&& t.sccp.is_blank()
    &&& t.content_routing is None
    &&& t.isup_screening is None
}

/// What a scriptable node owns.
pub struct NodeState<H> {
    /// The routing tables.
    pub router: Router,
    /// The dialogues.
    pub engine: DialogueEngine<H>,
    /// The tenant that scripts program.
    pub tenant: String,
    /// The subsystems that the node owns.
    pub local_ssns: Vec<u8>,
}

/// The subsystems that a handler is registered on: those configured, else MAP and
/// CAP.
pub open spec fn owned_by(local: Seq<u8>) -> Seq<u8> {
    if local.len() == 0 {
        seq![6u8, 8u8, 146u8]
    } else {
        local
    }
}

/// A table with an operation registered on the first `n` of some subsystems, each
/// with a handler of its own from `first` on.
pub open spec fn registered_on(
    t: Registrations,
    ssns: Seq<u8>,
    op: i64,
    first: nat,
    n: int,
) -> Registrations
    decreases n,
{
    if n <= 0 {
        t
    } else {
        registered_on(t, ssns, op, first, n - 1).insert(
            (ssns[n - 1] as u32, op),
            (first + n - 1) as usize,
        )
    }
}

/// Where a route goes: to the one destination that it names.
pub open spec fn route_choice(as_: Option<Seq<char>>, linkset: Option<Seq<char>>) -> Result<
    Egress,
    Refusal,
> {
    match (as_, linkset) {
        (Some(a), None) => Ok(Egress::ApplicationServer(a)),
        (None, Some(l)) => Ok(Egress::Linkset(l)),
        (Some(_), Some(_)) => Err(Refusal::RouteNamesBoth),
        (None, None) => Err(Refusal::RouteNamesNeither),
    }
}

/// The text of an optional string.
pub open spec fn text_of(o: Option<String>) -> Option<Seq<char>> {
    match o {
        Some(s) => Some(s@),
        None => None,
    }
}

/// The outcome of choosing a destination.
pub open spec fn choice_outcome(r: Result<Destination, SigtranError>) -> Result<Egress, Refusal> {
    match r {
        Ok(d) => Ok(d@),
        Err(e) => Err(e@),
    }
}

/// The one destination that a route names.
pub fn choose_destination(as_: Option<String>, linkset: Option<String>) -> (r: Result<
    Destination,
    SigtranError,
>)
    ensures
        choice_outcome(r) == route_choice(text_of(as_), text_of(linkset)),
{
    match as_ {
        Some(a) => match linkset {
            Some(_) => Err(SigtranError::RouteNamesBoth),
            None => Ok(Destination::ApplicationServer(a)),
        },
        None => match linkset {
            Some(l) => Ok(Destination::Linkset(l)),
            None => Err(SigtranError::RouteNamesNeither),
        },
    }
}

/// Only the runtime of one tenant differs.
pub open spec fn only_tenant(before: Runtimes, after: Runtimes, tenant: Seq<char>) -> bool {
    &&& after.dom() == before.dom()
    &&& forall|k: Seq<char>|
        k != tenant && before.contains_key(k) ==> #[trigger] after[k] == before[k]
}

/// A tenant has one more route.
pub open spec fn route_added(
    before: TenantRuntime,
    after: TenantRuntime,
    dpc: u32,
    choice: Choice,
) -> bool {
    &&& after == (TenantRuntime { routes: after.routes, ..before })
    &&& after.routes.var() == before.routes.var()
    &&& after.routes.candidates(dpc) == with_choice(before.routes.candidates(dpc), choice)
    &&& forall|d: u32|
        d != dpc ==> #[trigger] after.routes.candidates(d) == before.routes.candidates(d)
}

/// A tenant has a translation rule in front of its others.
pub open spec fn rule_added(before: TenantRuntime, after: TenantRuntime, rule: GttRule) -> bool {
    &&& after == (TenantRuntime { gtt: after.gtt, ..before })
    &&& after.gtt.rule_list() == seq![rule] + before.gtt.rule_list()
    &&& after.gtt.group_map() == before.gtt.group_map()
    &&& after.gtt.owned() == before.gtt.owned()
}

/// The content rules of a tenant, none if it has no content routing.
pub open spec fn content_rules(t: TenantRuntime) -> Seq<CompiledRule> {
    match t.content {
        Some(c) => c.rule_list(),
        None => Seq::empty(),
    }
}

/// The address tables of a tenant, none if it has no content routing.
pub open spec fn content_addresses(t: TenantRuntime) -> Tables {
    match t.content {
        Some(c) => c.addresses(),
        None => Map::empty(),
    }
}

/// The IMSI tables of a tenant, none if it has no content routing.
pub open spec fn content_imsis(t: TenantRuntime) -> Tables {
    match t.content {
        Some(c) => c.imsis(),
        None => Map::empty(),
    }
}

/// A tenant has a content rule in front of its others.
pub open spec fn content_rule_added(
    before: TenantRuntime,
    after: TenantRuntime,
    rule: ContentRule,
) -> bool {
    &&& after == (TenantRuntime { content: after.content, ..before })
    &&& after.content is Some
    &&& content_rules(after).len() == content_rules(before).len() + 1
    &&& content_rules(after)[0].compiled_from(rule)
    &&& content_rules(after).drop_first() == content_rules(before)
    &&& content_addresses(after) == content_addresses(before)
    &&& content_imsis(after) == content_imsis(before)
}

/// A tenant has digits in one of its address tables.
pub open spec fn content_address_added(
    before: TenantRuntime,
    after: TenantRuntime,
    table: Seq<char>,
    addr: Seq<char>,
) -> bool {
    let b = content_addresses(before);
    let a = content_addresses(after);
    &&& after == (TenantRuntime { content: after.content, ..before })
    &&& after.content is Some
    &&& content_rules(after) == content_rules(before)
    &&& content_imsis(after) == content_imsis(before)
    &&& a.dom() == b.dom().insert(table)
    &&& members(a[table]) == with_member(table_members(b, table), addr)
    &&& forall|n: Seq<char>| n != table && b.contains_key(n) ==> #[trigger] a[n] == b[n]
}

impl<H> NodeState<H> {
    /// The tables are in order.
    pub open spec fn wf(&self) -> bool {
        self.router.wf() && self.engine.wf()
    }

    /// Only the router differs.
    pub open spec fn same_but_router(&self, other: &NodeState<H>) -> bool {
        &&& self.engine == other.engine
        &&& self.tenant == other.tenant
        &&& self.local_ssns == other.local_ssns
    }

    /// A node for a configuration. Scripts program its default tenant.
    pub fn from_config(cfg: &Config) -> (r: NodeState<H>)
        requires
            cfg.tenants.wf(),
        ensures
            r.wf(),
            r.tenant@ == DEFAULT_TENANT@,
            r.local_ssns@ == if cfg.tenants@.contains_key(DEFAULT_TENANT@) {
                cfg.tenants@[DEFAULT_TENANT@].sccp.local_ssns@
            } else {
                Seq::empty()
            },
            r.router.runtimes().dom() == cfg.tenants@.dom(),
            forall|k: Seq<char>| #[trigger]
                cfg.tenants@.contains_key(k) ==> r.router.runtimes()[k].compiled_from(
                    k,
                    &cfg.tenants@[k],
                    cfg.associations@,
                ),
            r.engine.settings() == cfg.tcap,
            r.engine.host_count() == 0,
            r.engine.records() == Map::<u32, RecordModel>::empty(),
            r.engine.drivers() == Map::<u32, HandledBy<H>>::empty(),
    {
        let local_ssns = match cfg.default_tenant() {
            Some(t) => copy_octets(&t.sccp.local_ssns),
            None => {
                let none: Vec<u8> = Vec::new();
                proof {
                    assert(none@ =~= Seq::<u8>::empty());
                }
                none
            },
        };
        NodeState {
            router: Router::new(cfg),
            engine: DialogueEngine::new(cfg.tcap),
            tenant: DEFAULT_TENANT.to_owned(),
            local_ssns,
        }
    }

    /// The node before any configuration: point code 1 under the ITU variant, with
    /// empty tables.
    pub fn default_node() -> (r: NodeState<H>)
        ensures
            r.wf(),
            r.tenant@ == DEFAULT_TENANT@,
            r.local_ssns@.len() == 0,
            r.router.runtimes().dom() == Set::<Seq<char>>::empty().insert(DEFAULT_TENANT@),
            r.router.runtimes()[DEFAULT_TENANT@].point_code == 1,
            r.router.runtimes()[DEFAULT_TENANT@].variant == Variant::Itu,
            exists|t: Tenant|
                is_unconfigured(t)
                    && #[trigger] r.router.runtimes()[DEFAULT_TENANT@].compiled_from(
                    DEFAULT_TENANT@,
                    &t,
                    Seq::empty(),
                ),
            r.engine.settings().invoke_timer_ms == 15_000,
            r.engine.settings().dialogue_timer_ms == 30_000,
            r.engine.settings().max_dialogues == 100_000,
            r.engine.host_count() == 0,
            r.engine.records() == Map::<u32, RecordModel>::empty(),
            r.engine.drivers() == Map::<u32, HandledBy<H>>::empty(),
    {
        let raw = RawFile {
            node: Some(
                NodeSettings {
                    point_code: RawPc(1),
                    variant: Variant::Itu,
                    network_indicator: NetworkIndicator::International,
                },
            ),
            associations: Vec::new(),
            application_servers: Vec::new(),
            linksets: Vec::new(),
            mtp3_routes: Vec::new(),
            sccp: None,
            content_routing: None,
            isup_screening: None,
            tcap: None,
            tenants: None,
        };
        let cfg = match Config::from_raw(raw) {
            Ok(c) => c,
            Err(_) => {
                proof {
                    assert(raw.shape_fault() is None);
                }
                Config {
                    associations: Vec::new(),
                    tcap: crate::config::Tcap::default(),
                    tenants: crate::sorted_map::SortedMap::new(),
                }
            },
        };
        proof {
            assert(cfg.tenants@.dom().contains(DEFAULT_TENANT@));
            assert(cfg.tenants@.contains_key(DEFAULT_TENANT@));
        }
        let r = NodeState::from_config(&cfg);
        proof {
            assert(r.router.runtimes().dom().contains(DEFAULT_TENANT@));
            assert(cfg.associations@ =~= Seq::empty());
            let t = cfg.tenants@[DEFAULT_TENANT@];
            assert(is_unconfigured(t));
            assert(r.router.runtimes()[DEFAULT_TENANT@].compiled_from(
                DEFAULT_TENANT@,
                &t,
                Seq::empty(),
            ));
        }
        r
    }

    /// The subsystems that a handler is registered on.
    pub fn owned_ssns(&self) -> (r: Vec<u8>)
        ensures
            r@ == owned_by(self.local_ssns@),
    {
        if self.local_ssns.len() == 0 {
            let mut v: Vec<u8> = Vec::new();
            v.push(6);
            v.push(8);
            v.push(146);
            proof {
                assert(v@ =~= seq![6u8, 8u8, 146u8]);
            }
            v
        } else {
            copy_octets(&self.local_ssns)
        }
    }

    /// Adds a route to a point code, toward the one destination that it names.
    pub fn routes_add(
        &mut self,
        dpc: u32,
        as_: Option<String>,
        linkset: Option<String>,
        priority: u8,
    ) -> (r: Result<(), SigtranError>)
        requires
            old(self).wf(),
        ensures
            final(self).wf(),
            final(self).same_but_router(old(self)),
            only_tenant(
                old(self).router.runtimes(),
                final(self).router.runtimes(),
                old(self).tenant@,
            ),
            match route_choice(text_of(as_), text_of(linkset)) {
                Err(e) => {
                    &&& r matches Err(x) && x@ == e
                    &&& final(self).router == old(self).router
                },
                Ok(d) => if old(self).router.runtimes().contains_key(old(self).tenant@) {
                    &&& r is Ok
                    &&& route_added(
                        old(self).router.runtimes()[old(self).tenant@],
                        final(self).router.runtimes()[old(self).tenant@],
                        dpc,
                        Choice { dest: d, priority },
                    )
                } else {
                    &&& r matches Err(x) && x@ == Refusal::NoDefaultTenant
                    &&& final(self).router.runtimes() == old(self).router.runtimes()
                },
            },
    {
        let ghost before = self.router.runtimes();
        let dest = match choose_destination(as_, linkset) {
            Ok(d) => d,
            Err(e) => {
                return Err(e);
            },
        };
        let r = match self.router.tenancy_mut().get_mut(self.tenant.as_str()) {
            Some(rt) => {
                rt.routes.add(dpc, dest, priority);
                Ok(())
            },
            None => Err(SigtranError::NoDefaultTenant),
        };
        proof {
            assert(self.router.runtimes().dom() =~= before.dom());
        }
        r
    }

    /// Puts a translation rule in front of the others.
    pub fn push_rule(&mut self, rule: GttRule) -> (r: Result<(), SigtranError>)
        requires
            old(self).wf(),
        ensures
            final(self).wf(),
            final(self).same_but_router(old(self)),
            only_tenant(
                old(self).router.runtimes(),
                final(self).router.runtimes(),
                old(self).tenant@,
            ),
            if old(self).router.runtimes().contains_key(old(self).tenant@) {
                &&& r is Ok
                &&& rule_added(
                    old(self).router.runtimes()[old(self).tenant@],
                    final(self).router.runtimes()[old(self).tenant@],
                    rule,
                )
            } else {
                &&& r matches Err(x) && x@ == Refusal::NoDefaultTenant
                &&& final(self).router.runtimes() == old(self).router.runtimes()
            },
    {
        let ghost before = self.router.runtimes();
        let r = match self.router.tenancy_mut().get_mut(self.tenant.as_str()) {
            Some(rt) => {
                rt.gtt.add_rule(rule);
                Ok(())
            },
            None => Err(SigtranError::NoDefaultTenant),
        };
        proof {
            assert(self.router.runtimes().dom() =~= before.dom());
        }
        r
    }

    /// Puts in front of the others a rule that sends titles with a prefix to a
    /// point code and subsystem.
    pub fn add_prefix(&mut self, gt: &str, dpc: u32, ssn: u8) -> (r: Result<(), SigtranError>)
        requires
            old(self).wf(),
        ensures
            final(self).wf(),
            final(self).same_but_router(old(self)),
            only_tenant(
                old(self).router.runtimes(),
                final(self).router.runtimes(),
                old(self).tenant@,
            ),
            if old(self).router.runtimes().contains_key(old(self).tenant@) {
                &&& r is Ok
                &&& exists|rule: GttRule|
                    {
                        &&& is_prefix_rule(rule, gt@, dpc, ssn)
                        &&& #[trigger] rule_added(
                            old(self).router.runtimes()[old(self).tenant@],
                            final(self).router.runtimes()[old(self).tenant@],
                            rule,
                        )
                    }
            } else {
                &&& r matches Err(x) && x@ == Refusal::NoDefaultTenant
                &&& final(self).router.runtimes() == old(self).router.runtimes()
            },
    {
        let rule = GttRule {
            match_: GttMatch {
                gt_prefix: Some(gt.to_owned()),
                gti: None,
                tt: None,
                np: None,
                nai: None,
            },
            to: RouteTarget {
                dpc: Some(RawPc(dpc)),
                ssn: Some(ssn),
                group: None,
                local: None,
                tenant: None,
            },
        };
        proof {
            assert(is_prefix_rule(rule, gt@, dpc, ssn));
        }
        self.push_rule(rule)
    }

    /// Puts a content rule in front of the others, starting content routing where
    /// there was none.
    pub fn content_add_rule(&mut self, rule: &ContentRule) -> (r: Result<(), SigtranError>)
        requires
            old(self).wf(),
        ensures
            final(self).wf(),
            final(self).same_but_router(old(self)),
            only_tenant(
                old(self).router.runtimes(),
                final(self).router.runtimes(),
                old(self).tenant@,
            ),
            if old(self).router.runtimes().contains_key(old(self).tenant@) {
                &&& r is Ok
                &&& content_rule_added(
                    old(self).router.runtimes()[old(self).tenant@],
                    final(self).router.runtimes()[old(self).tenant@],
                    *rule,
                )
            } else {
                &&& r matches Err(x) && x@ == Refusal::NoDefaultTenant
                &&& final(self).router.runtimes() == old(self).router.runtimes()
            },
    {
        let ghost before = self.router.runtimes();
        let r = match self.router.tenancy_mut().get_mut(self.tenant.as_str()) {
            Some(rt) => {
                let mut c = match rt.content.take() {
                    Some(c) => c,
                    None => ContentEngine::empty(),
                };
                c.add_rule(rule);
                rt.content = Some(c);
                Ok(())
            },
            None => Err(SigtranError::NoDefaultTenant),
        };
        proof {
            assert(self.router.runtimes().dom() =~= before.dom());
        }
        r
    }

    /// Adds digits to an address table, starting content routing where there was
    /// none.
    pub fn address_table_add(&mut self, table: &str, addr: &str) -> (r: Result<(), SigtranError>)
        requires
            old(self).wf(),
        ensures
            final(self).wf(),
            final(self).same_but_router(old(self)),
            only_tenant(
                old(self).router.runtimes(),
                final(self).router.runtimes(),
                old(self).tenant@,
            ),
            if old(self).router.runtimes().contains_key(old(self).tenant@) {
                &&& r is Ok
                &&& content_address_added(
                    old(self).router.runtimes()[old(self).tenant@],
                    final(self).router.runtimes()[old(self).tenant@],
                    table@,
                    addr@,
                )
            } else {
                &&& r matches Err(x) && x@ == Refusal::NoDefaultTenant
                &&& final(self).router.runtimes() == old(self).router.runtimes()
            },
    {
        let ghost before = self.router.runtimes();
        let r = match self.router.tenancy_mut().get_mut(self.tenant.as_str()) {
            Some(rt) => {
                let mut c = match rt.content.take() {
                    Some(c) => c,
                    None => ContentEngine::empty(),
                };
                c.address_table_add(table, addr);
                rt.content = Some(c);
                Ok(())
            },
            None => Err(SigtranError::NoDefaultTenant),
        };
        proof {
            assert(self.router.runtimes().dom() =~= before.dom());
        }
        r
    }

    /// The point code that an originated dialogue goes out under: the one given,
    /// else the node's own.
    pub open spec fn origin_pc(&self, opc: Option<u32>) -> u32 {
        match opc {
            Some(p) => p,
            None => if self.router.runtimes().contains_key(self.tenant@) {
                self.router.runtimes()[self.tenant@].point_code
            } else {
                0
            },
        }
    }

    /// The network indicator that an originated dialogue goes out under.
    pub open spec fn origin_ni(&self) -> u8 {
        if self.router.runtimes().contains_key(self.tenant@) {
            ni_bits(self.router.runtimes()[self.tenant@].network_indicator)
        } else {
            0
        }
    }

    /// The opening of a dialogue toward a title. The calling party is the address
    /// given for this node, so that the peer can route back to it.
    pub fn origination(
        &self,
        called_gt: &str,
        called_ssn: u8,
        calling_gt: &str,
        calling_ssn: u8,
        dpc: u32,
        ac: &MapAcHandle,
        opc: Option<u32>,
        sls: u8,
    ) -> (r: OutgoingBegin)
        requires
            self.wf(),
        ensures
            r.application_context@ == ac.arcs@,
            r.addressing() == (AddressingModel {
                out_called: gt_model(called_gt@, Some(called_ssn)),
                out_calling: gt_model(calling_gt@, Some(calling_ssn)),
                opc: self.origin_pc(opc),
                dpc,
                ni: self.origin_ni(),
                sls,
            }),
            r.ingress_assoc@.len() == 0,
    {
        let own: u32 = match self.router.node_point_code(self.tenant.as_str()) {
            Some(p) => p,
            None => 0,
        };
        let ni: u8 = match self.router.node_network_indicator(self.tenant.as_str()) {
            Some(n) => n,
            None => 0,
        };
        OutgoingBegin {
            application_context: copy_arcs(&ac.arcs),
            called: gt_address(called_gt, Some(called_ssn)),
            calling: gt_address(calling_gt, Some(calling_ssn)),
            opc: match opc {
                Some(p) => p,
                None => own,
            },
            dpc,
            ni,
            sls,
            ingress_assoc: String::new(),
        }
    }
}

/// The rule sends titles with a prefix to a point code and subsystem.
pub open spec fn is_prefix_rule(rule: GttRule, gt: Seq<char>, dpc: u32, ssn: u8) -> bool {
    &&& text_of(rule.match_.gt_prefix) == Some(gt)
    &&& rule.match_ == (GttMatch {
        gt_prefix: rule.match_.gt_prefix,
        gti: None,
        tt: None,
        np: None,
        nai: None,
    })
    &&& rule.to == (RouteTarget {
        dpc: Some(RawPc(dpc)),
        ssn: Some(ssn),
        group: None,
        local: None,
        tenant: None,
    })
}

impl<H: Clone> NodeState<H> {
    /// Registers a handler for an operation on every subsystem that the node owns:
    /// as a catch-all, which yields to a handler of its own, or as that.
    pub fn register_termination(&mut self, op: i64, func: &H, catch_all: bool)
        requires
            old(self).wf(),
        ensures
            final(self).wf(),
            final(self).router == old(self).router,
            final(self).tenant == old(self).tenant,
            final(self).local_ssns == old(self).local_ssns,
            final(self).engine.settings() == old(self).engine.settings(),
            final(self).engine.records() == old(self).engine.records(),
            final(self).engine.drivers() == old(self).engine.drivers(),
            final(self).engine.counter() == old(self).engine.counter(),
            ({
                let ssns = owned_by(old(self).local_ssns@);
                let n = ssns.len() as int;
                let first = old(self).engine.host_count();
                &&& final(self).engine.host_count() == first + n
                &&& forall|i: int|
                    0 <= i < first ==> #[trigger] final(self).engine.host(i) == old(
                        self,
                    ).engine.host(i)
                &&& forall|i: int|
                    first <= i < first + n ==> cloned(*func, #[trigger] final(self).engine.host(i))
                &&& if catch_all {
                    &&& final(self).engine.fallback() == registered_on(
                        old(self).engine.fallback(),
                        ssns,
                        op,
                        first,
                        n,
                    )
                    &&& final(self).engine.registered() == old(self).engine.registered()
                } else {
                    &&& final(self).engine.registered() == registered_on(
                        old(self).engine.registered(),
                        ssns,
                        op,
                        first,
                        n,
                    )
                    &&& final(self).engine.fallback() == old(self).engine.fallback()
                }
            }),
    {
        let ghost start = *self;
        let ghost first = self.engine.host_count();
        let ssns = self.owned_ssns();
        let mut i: usize = 0;
        while i < ssns.len()
            invariant
                i <= ssns@.len(),
                ssns@ == owned_by(start.local_ssns@),
                first == start.engine.host_count(),
                self.wf(),
                self.router == start.router,
                self.tenant == start.tenant,
                self.local_ssns == start.local_ssns,
                self.engine.settings() == start.engine.settings(),
                self.engine.records() == start.engine.records(),
                self.engine.drivers() == start.engine.drivers(),
                self.engine.counter() == start.engine.counter(),
                self.engine.host_count() == first + i,
                forall|k: int|
                    0 <= k < first ==> #[trigger] self.engine.host(k) == start.engine.host(k),
                forall|k: int|
                    first <= k < first + i ==> cloned(*func, #[trigger] self.engine.host(k)),
                catch_all ==> self.engine.fallback() == registered_on(
                    start.engine.fallback(),
                    ssns@,
                    op,
                    first,
                    i as int,
                ) && self.engine.registered() == start.engine.registered(),
                !catch_all ==> self.engine.registered() == registered_on(
                    start.engine.registered(),
                    ssns@,
                    op,
                    first,
                    i as int,
                ) && self.engine.fallback() == start.engine.fallback(),
            decreases ssns.len() - i,
        {
            let ghost before = self.engine;
            let h = func.clone();
            if catch_all {
                self.engine.register_fallback(ssns[i], op, h);
            } else {
                self.engine.register(ssns[i], op, h);
            }
            proof {
                assert forall|k: int| 0 <= k < first implies #[trigger] self.engine.host(k)
                    == start.engine.host(k) by {
                    assert(before.host(k) == start.engine.host(k));
                }
                assert forall|k: int| first <= k < first + i + 1 implies cloned(
                    *func,
                    #[trigger] self.engine.host(k),
                ) by {
                    if k < first + i {
                        assert(cloned(*func, before.host(k)));
                    }
                }
            }
            i += 1;
        }
    }
}

/// A handler of its own for an operation wins over a catch-all, whichever was
/// registered first.
pub proof fn law_catch_all_never_shadows(
    handlers: Registrations,
    fallbacks: Registrations,
    ssns: Seq<u8>,
    op: i64,
    first: nat,
    n: int,
    ssn: u8,
    other: i64,
)
    requires
        handlers.contains_key((ssn as u32, other)),
    ensures
        crate::dialogue::engine::handler_for(
            handlers,
            registered_on(fallbacks, ssns, op, first, n),
            ssn,
            other,
        ) == Some(handlers[(ssn as u32, other)]),
{
}

// ── The round trip ──────────────────────────────────────────────────────────

/// A component that a script staged for a message of the peer.
#[derive(Clone, Debug, PartialEq, Eq)]
pub enum StagedComponent {
    Result(StagedResult),
    Invoke(StagedInvoke),
}

/// The component under an invoke id.
pub open spec fn component_model(c: StagedComponent, invoke_id: i64) -> StagedModel {
    match c {
        StagedComponent::Result(r) => StagedModel::ResultLast {
            invoke_id,
            operation: r@.op,
            parameter: r@.octets,
        },
        StagedComponent::Invoke(i) => StagedModel::Invoke {
            invoke_id,
            operation: i@.op,
            parameter: i@.octets,
        },
    }
}

fn component_of(c: &StagedComponent, invoke_id: i64) -> (r: Staged)
    ensures
        r@ == component_model(*c, invoke_id),
{
    match c {
        StagedComponent::Result(r) => Staged::ResultLast {
            invoke_id,
            operation: r.op,
            parameter: copy_some(&r.param),
        },
        StagedComponent::Invoke(i) => Staged::Invoke {
            invoke_id,
            operation: i.op,
            parameter: copy_some(&i.arg),
        },
    }
}

/// The payload that carries a transaction between two parties.
pub open spec fn payload_of(
    m: OutgoingModel,
    called: AddressModel,
    calling: AddressModel,
) -> Result<Seq<u8>, Refusal> {
    match transaction_octets(m) {
        Err(UnwrittenModel::Context) => Err(Refusal::NotEncoded),
        Err(UnwrittenModel::Codec(t)) => Err(Refusal::Codec(t)),
        Ok(data) => match sccp_encoded(
            carrier(
                data,
                AddressingModel {
                    out_called: called,
                    out_calling: calling,
                    opc: 0,
                    dpc: 0,
                    ni: 0,
                    sls: 0,
                },
            ),
        ) {
            Ok(p) => Ok(p),
            Err(t) => Err(Refusal::Codec(t)),
        },
    }
}

/// The outcome of assembling a payload.
pub open spec fn payload_outcome(r: Result<Vec<u8>, SigtranError>) -> Result<Seq<u8>, Refusal> {
    match r {
        Ok(v) => Ok(v@),
        Err(e) => Err(e@),
    }
}

fn assemble(m: Outgoing, called: PartyAddress, calling: PartyAddress) -> (r: Result<
    Vec<u8>,
    SigtranError,
>)
    ensures
        payload_outcome(r) == payload_of(m@, called@, calling@),
{
    match encode_transaction(m) {
        Err(Unwritten::Context) => Err(SigtranError::NotEncoded),
        Err(Unwritten::Codec(t)) => Err(SigtranError::Codec(t)),
        Ok(data) => match Unitdata::udt(called, calling, data).encode() {
            Ok(p) => Ok(p),
            Err(t) => Err(SigtranError::Codec(t)),
        },
    }
}

/// The transaction id of an assembled Begin.
pub open spec fn begin_tid() -> Seq<u8> {
    seq![0x11u8, 0x22u8, 0x33u8, 0x44u8]
}

/// The transaction id of an assembled Continue that gives none.
pub open spec fn continue_tid() -> Seq<u8> {
    seq![0x22u8, 0x22u8, 0x22u8, 0x22u8]
}

fn four(a: u8, b: u8, c: u8, d: u8) -> (r: Vec<u8>)
    ensures
        r@ == seq![a, b, c, d],
{
    let mut v: Vec<u8> = Vec::new();
    v.push(a);
    v.push(b);
    v.push(c);
    v.push(d);
    proof {
        assert(v@ =~= seq![a, b, c, d]);
    }
    v
}

/// The arcs of an optional context.
pub open spec fn handle_arcs(o: Option<MapAcHandle>) -> Option<Seq<u32>> {
    match o {
        Some(h) => Some(h.arcs@),
        None => None,
    }
}

/// A configured node with the seams for a round trip.
pub struct Node<H> {
    /// The node.
    pub state: NodeState<H>,
}

impl<H> Node<H> {
    /// The payload of a Begin with one invoke, addressed to a subsystem of ours.
    pub fn assemble_begin(
        op: &str,
        called_gt: &str,
        called_ssn: u8,
        calling_gt: &str,
        arg: Option<Vec<u8>>,
        ac: Option<MapAcHandle>,
    ) -> (r: Result<Vec<u8>, SigtranError>)
        ensures
            payload_outcome(r) == match operation_code(op@) {
                None => Err(Refusal::NoSuchOperation(op@)),
                Some(code) => payload_of(
                    OutgoingModel::Begin {
                        otid: begin_tid(),
                        context: handle_arcs(ac),
                        components: seq![
                            StagedModel::Invoke {
                                invoke_id: 1,
                                operation: code,
                                parameter: octets(arg),
                            },
                        ],
                    },
                    gt_model(called_gt@, Some(called_ssn)),
                    gt_model(calling_gt@, Some(called_ssn)),
                ),
            },
    {
        let code: i64 = match operation_op_code(op) {
            Some(c) => c,
            None => {
                return Err(SigtranError::NoSuchOperation(op.to_owned()));
            },
        };
        let ghost parameter = octets(arg);
        let mut components: Vec<Staged> = Vec::new();
        components.push(Staged::Invoke { invoke_id: 1, operation: code, parameter: arg });
        proof {
            assert(staged_models(components@) =~= seq![
                StagedModel::Invoke { invoke_id: 1, operation: code, parameter },
            ]);
        }
        assemble(
            Outgoing::Begin {
                otid: four(0x11, 0x22, 0x33, 0x44),
                context: match ac {
                    Some(h) => Some(h.arcs),
                    None => None,
                },
                components,
            },
            gt_address(called_gt, Some(called_ssn)),
            gt_address(calling_gt, Some(called_ssn)),
        )
    }

    /// The payload of a Continue from the peer with one component. The engine finds
    /// the dialogue by its transaction id alone.
    pub fn assemble_continue(
        dtid: Vec<u8>,
        staged: &StagedComponent,
        invoke_id: i64,
        otid: Option<Vec<u8>>,
    ) -> (r: Result<Vec<u8>, SigtranError>)
        ensures
            payload_outcome(r) == payload_of(
                OutgoingModel::Continue {
                    otid: match octets(otid) {
                        Some(t) => t,
                        None => continue_tid(),
                    },
                    dtid: dtid@,
                    context: None,
                    components: seq![component_model(*staged, invoke_id)],
                },
                gt_model("15550100"@, Some(6)),
                gt_model("15550170"@, Some(6)),
            ),
    {
        let mut components: Vec<Staged> = Vec::new();
        components.push(component_of(staged, invoke_id));
        proof {
            assert(staged_models(components@) =~= seq![component_model(*staged, invoke_id)]);
        }
        assemble(
            Outgoing::Continue {
                otid: match otid {
                    Some(t) => t,
                    None => four(0x22, 0x22, 0x22, 0x22),
                },
                dtid,
                context: None,
                components,
            },
            gt_address("15550100", Some(6)),
            gt_address("15550170", Some(6)),
        )
    }

    /// The payload of an End from the peer, with at most one component.
    pub fn assemble_end(dtid: Vec<u8>, staged: Option<StagedComponent>, invoke_id: i64) -> (r:
        Result<Vec<u8>, SigtranError>)
        ensures
            payload_outcome(r) == payload_of(
                OutgoingModel::End {
                    dtid: dtid@,
                    context: None,
                    components: match staged {
                        Some(c) => seq![component_model(c, invoke_id)],
                        None => Seq::empty(),
                    },
                },
                gt_model("15550100"@, Some(6)),
                gt_model("15550170"@, Some(6)),
            ),
    {
        let mut components: Vec<Staged> = Vec::new();
        match &staged {
            Some(c) => {
                components.push(component_of(c, invoke_id));
                proof {
                    assert(staged_models(components@) =~= seq![component_model(*c, invoke_id)]);
                }
            },
            None => {
                proof {
                    assert(staged_models(components@) =~= Seq::empty());
                }
            },
        }
        assemble(
            Outgoing::End { dtid, context: None, components },
            gt_address("15550100", Some(6)),
            gt_address("15550170", Some(6)),
        )
    }

    /// The view of a payload: a short-form SCCP data message around a transaction.
    pub fn decode(payload: &Vec<u8>) -> (r: Result<PyDecoded, SigtranError>)
        ensures
            match sccp_decoded(payload@) {
                Err(t) => r matches Err(e) && e@ == Refusal::Codec(t),
                Ok(u) => if u.form == SccpForm::Short && u.head is Data {
                    match tcap_decoded(u.data) {
                        Ok(t) => r matches Ok(d) && d.shows(t),
                        Err(t) => r matches Err(e) && e@ == Refusal::Codec(t),
                    }
                } else {
                    r matches Err(e) && e@ == Refusal::NotUnitdata
                },
            },
    {
        let udt = match Unitdata::decode(payload.as_slice()) {
            Ok(u) => u,
            Err(t) => {
                return Err(SigtranError::Codec(t));
            },
        };
        match (udt.form, udt.head) {
            (SccpForm::Short, SccpHead::Data { .. }) => {},
            _ => {
                return Err(SigtranError::NotUnitdata);
            },
        }
        match tcap_decode(udt.data.as_slice()) {
            Ok(t) => Ok(PyDecoded::from_tcap(&t)),
            Err(t) => Err(SigtranError::Codec(t)),
        }
    }
}

/// The payloads of some units.
pub open spec fn payloads(s: Seq<MsuModel>) -> Seq<Seq<u8>> {
    s.map_values(|m: MsuModel| m.payload)
}

fn payloads_of(s: Vec<Msu>) -> (r: Vec<Vec<u8>>)
    ensures
        octet_lists(r@) == payloads(units(s@)),
{
    let mut out: Vec<Vec<u8>> = Vec::new();
    let mut i: usize = 0;
    while i < s.len()
        invariant
            i <= s@.len(),
            out@.len() == i,
            forall|k: int| 0 <= k < i ==> (#[trigger] out@[k])@ == s@[k].payload@,
        decreases s.len() - i,
    {
        out.push(copy_octets(&s[i].payload));
        i += 1;
    }
    proof {
        assert(octet_lists(out@) =~= payloads(units(s@)));
    }
    out
}

/// A unit as the round trip delivers it.
pub open spec fn loopback_unit(payload: Seq<u8>, opc: u32, dpc: u32) -> MsuModel {
    MsuModel { opc, dpc, si: SI_SCCP, ni: 0, mp: 0, sls: 0, payload }
}

impl<H: TerminationHandler> Node<H> {
    /// Delivers one SCCP payload to the dialogue engine and gives the payloads to
    /// send back.
    pub fn deliver(&mut self, m: &mut Metrics, payload: Vec<u8>, opc: u32, dpc: u32, now: u64) -> (r:
        Vec<Vec<u8>>)
        requires
            old(self).state.wf(),
        ensures
            final(self).state.wf(),
            final(self).state.router == old(self).state.router,
            final(self).state.engine.same_setup(&old(self).state.engine),
            exists|out: Seq<MsuModel>|
                {
                    &&& octet_lists(r@) == payloads(out)
                    &&& #[trigger] final(self).state.engine.delivered(
                        &old(self).state.engine,
                        *old(m),
                        *final(m),
                        loopback_unit(payload@, opc, dpc),
                        "loopback"@,
                        now,
                        out,
                    )
                    &&& old(self).state.engine.begun_by(loopback_unit(payload@, opc, dpc)) matches Some(
                        (u, t),
                    ) ==> exists|x: &mut Dialogue, op: IncomingOp|
                        {
                            let before = old(self).state.engine;
                            &&& #[trigger] call_ensures(
                                H::on_begin,
                                (
                                    &old(self).state.engine.host(
                                        old(self).state.engine.chosen(t, u) as int,
                                    ),
                                    x,
                                    &op,
                                ),
                                (),
                            )
                            &&& (*x)@ == before.opened(t, u, loopback_unit(payload@, opc, dpc))
                            &&& op@ == opening_op(t, u)
                            &&& final(self).state.engine.answered(
                                &before,
                                *old(m),
                                *final(m),
                                before.chosen(t, u),
                                (*final(x))@,
                                "loopback"@,
                                now,
                                out,
                            )
                        }
                    &&& old(self).state.engine.followed_by(
                        loopback_unit(payload@, opc, dpc),
                    ) matches Some(t) ==> exists|x: &mut Dialogue, peer: PeerTurn|
                        {
                            let before = old(self).state.engine;
                            &&& #[trigger] call_ensures(
                                H::on_continue,
                                (
                                    &old(self).state.engine.host_of(
                                        old(self).state.engine.handler_of(
                                            id_number(t.dtid)->Some_0,
                                        ),
                                    ),
                                    x,
                                    &peer,
                                ),
                                (),
                            )
                            &&& (*x)@ == before.taken_up(t)
                            &&& peer@ == turn_of(t.components, t.kind == TcKind::End)
                            &&& final(self).state.engine.continued(
                                &before,
                                *old(m),
                                *final(m),
                                t.dtid,
                                t.kind == TcKind::End,
                                (*final(x))@,
                                now,
                                out,
                            )
                        }
                },
    {
        let msu = Msu { opc, dpc, si: SI_SCCP, ni: 0, mp: 0, sls: 0, payload };
        let ghost unit = msu@;
        let out = self.state.engine.deliver(m, &msu, "loopback", now);
        proof {
            assert(unit == loopback_unit(payload@, opc, dpc));
        }
        payloads_of(out)
    }

    /// Opens a dialogue of ours and gives the payloads to send.
    pub fn originate(
        &mut self,
        m: &mut Metrics,
        handler: H,
        called_gt: &str,
        called_ssn: u8,
        calling_gt: &str,
        calling_ssn: u8,
        dpc: u32,
        ac: &MapAcHandle,
        opc: Option<u32>,
        sls: u8,
        now: u64,
    ) -> (r: Vec<Vec<u8>>)
        requires
            old(self).state.wf(),
        ensures
            final(self).state.wf(),
            final(self).state.router == old(self).state.router,
            final(self).state.engine.same_setup(&old(self).state.engine),
            exists|out: Seq<MsuModel>|
                {
                    &&& octet_lists(r@) == payloads(out)
                    &&& #[trigger] final(self).state.engine.begun(
                        &old(self).state.engine,
                        *old(m),
                        *final(m),
                        AddressingModel {
                            out_called: gt_model(called_gt@, Some(called_ssn)),
                            out_calling: gt_model(calling_gt@, Some(calling_ssn)),
                            opc: old(self).state.origin_pc(opc),
                            dpc,
                            ni: old(self).state.origin_ni(),
                            sls,
                        },
                        Seq::empty(),
                        now,
                        out,
                    )
                    &&& exists|x: &mut Dialogue|
                        {
                            let addressing = AddressingModel {
                                out_called: gt_model(called_gt@, Some(called_ssn)),
                                out_calling: gt_model(calling_gt@, Some(calling_ssn)),
                                opc: old(self).state.origin_pc(opc),
                                dpc,
                                ni: old(self).state.origin_ni(),
                                sls,
                            };
                            &&& #[trigger] call_ensures(H::on_start, (&handler, x), ())
                            &&& (*x)@ == old(self).state.engine.opening(ac.arcs@, addressing)
                            &&& final(self).state.engine.started(
                                &old(self).state.engine,
                                *old(m),
                                *final(m),
                                addressing,
                                handler,
                                (*final(x))@,
                                Seq::empty(),
                                now,
                                out,
                            )
                        }
                },
    {
        let req = self.state.origination(
            called_gt,
            called_ssn,
            calling_gt,
            calling_ssn,
            dpc,
            ac,
            opc,
            sls,
        );
        proof {
            assert(req.ingress_assoc@ =~= Seq::empty());
        }
        let (_, out) = self.state.engine.begin(m, req, handler, now);
        payloads_of(out)
    }
}

} // verus!
