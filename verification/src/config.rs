//! The typed node configuration.
//!
//! One file describes a node: its point code and variant, the SCTP associations,
//! the linksets and Application Servers built on them, the MTP3 route table, the
//! SCCP translation and conversion tables, and the content-routing rules.
//!
//! With no tenants block the whole top level is the `default` tenant.
//! [`Config::from_raw`] folds both shapes into one map of tenants, so the rest of
//! the crate only ever sees per-tenant tables.
use crate::error::{Error, Fault, Result};
use crate::sorted_map::NameMap;
use crate::point_code::{resolved, PointCode, RawPc, Variant};
use vstd::prelude::*;
use vstd::string::*;

pub mod field_laws;
pub mod laws;
pub mod validate;

verus! {

/// The name of the implicit single tenant.
pub const DEFAULT_TENANT: &'static str = "default";

/// A routing-domain identifier.
pub type TenantId = String;

/// The Q.704 network indicator.
#[derive(Clone, Copy, PartialEq, Eq, Structural, Debug)]
pub enum NetworkIndicator {
    /// International (0).
    International,
    /// International spare (1).
    InternationalSpare,
    /// National (2).
    National,
    /// National spare (3).
    NationalSpare,
}

/// The two-bit value of a network indicator.
pub open spec fn ni_bits(ni: NetworkIndicator) -> u8 {
    match ni {
        NetworkIndicator::International => 0,
        NetworkIndicator::InternationalSpare => 1,
        NetworkIndicator::National => 2,
        NetworkIndicator::NationalSpare => 3,
    }
}

impl NetworkIndicator {
    /// The two-bit value.
    pub fn bits(self) -> (r: u8)
        ensures
            r == ni_bits(self),
            r < 4,
    {
        match self {
            NetworkIndicator::International => 0,
            NetworkIndicator::InternationalSpare => 1,
            NetworkIndicator::National => 2,
            NetworkIndicator::NationalSpare => 3,
        }
    }
}

/// The node block: our point code, variant and network indicator.
#[derive(Clone, Debug)]
pub struct Node {
    /// Our point code, resolved under [`Node::variant`].
    pub point_code: RawPc,
    /// The SS7 variant.
    pub variant: Variant,
    /// The network indicator of messages we originate.
    pub network_indicator: NetworkIndicator,
}

/// The SIGTRAN adaptation layer carried over an association.
#[derive(Clone, Copy, PartialEq, Eq, Structural, Debug)]
pub enum Adaptation {
    /// M3UA (RFC 4666).
    M3ua,
    /// M2PA (RFC 4165).
    M2pa,
    /// SUA (RFC 3868).
    Sua,
}

/// Whether we open the SCTP association or accept it.
#[derive(Clone, Copy, PartialEq, Eq, Structural, Debug)]
pub enum Role {
    /// We accept an inbound association.
    Server,
    /// We open the association.
    Client,
}

/// One SCTP endpoint.
#[derive(Clone, Debug)]
pub struct Association {
    /// Association id, referenced by links and Application Servers.
    pub id: String,
    /// The adaptation layer.
    pub adaptation: Adaptation,
    /// Listen or connect.
    pub role: Role,
    /// One or more IP addresses (SCTP multihoming).
    pub addrs: Vec<String>,
    /// SCTP port.
    pub port: u16,
    /// For an M2PA link: the adjacent point code reached directly over it. An
    /// adjacent point code is an implicit full route.
    pub adjacent_pc: Option<RawPc>,
}

/// M3UA traffic mode across the ASPs of an Application Server.
#[derive(Clone, Copy, PartialEq, Eq, Structural, Debug)]
pub enum TrafficMode {
    /// Share traffic across the active ASPs, keyed by SLS.
    Loadshare,
    /// One active ASP; the others stand by.
    Override,
    /// Send to every active ASP.
    Broadcast,
}

/// An M3UA Application Server, served by one or more ASPs, each an association.
#[derive(Clone, Debug)]
pub struct ApplicationServer {
    /// Name, referenced by MTP3 routes.
    pub name: String,
    /// How traffic is spread over the active ASPs.
    pub traffic_mode: TrafficMode,
    /// The Routing Context that identifies this server.
    pub routing_context: u32,
    /// The member ASPs: association ids.
    pub asps: Vec<String>,
}

/// A link within a linkset: an association bound to a signalling-link code.
#[derive(Clone, Debug)]
pub struct Link {
    /// The association this link rides.
    pub assoc: String,
    /// The signalling-link code within the linkset.
    pub slc: u8,
}

/// An M2PA linkset.
#[derive(Clone, Debug)]
pub struct Linkset {
    /// Name, referenced by MTP3 routes.
    pub name: String,
    /// The member links.
    pub links: Vec<Link>,
}

/// A static route to a destination point code via an Application Server or an
/// M2PA linkset. Exactly one of the two is set in a valid configuration.
#[derive(Clone, Debug)]
pub struct Mtp3Route {
    /// Destination point code.
    pub dpc: RawPc,
    /// The Application Server to reach it.
    pub as_: Option<String>,
    /// The linkset to reach it.
    pub linkset: Option<String>,
    /// Priority: 1 is primary, higher numbers are alternates.
    pub priority: u8,
}

/// How a translation group picks a member.
#[derive(Clone, Copy, PartialEq, Eq, Structural, Debug)]
pub enum GroupMode {
    /// Lowest cost is primary, the others fail-over alternates.
    Cost,
    /// Weighted round-robin across members.
    Share,
}

/// A member of a translation group.
#[derive(Clone, Copy, PartialEq, Eq, Structural, Debug)]
pub struct GroupMember {
    /// Destination point code.
    pub dpc: RawPc,
    /// Subsystem number.
    pub ssn: u8,
    /// Cost in a cost group (lower is preferred).
    pub cost: Option<u8>,
    /// Weight in a share group.
    pub weight: Option<u8>,
}

/// A named set of translation results.
#[derive(Clone, Debug)]
pub struct GttGroup {
    /// Name, referenced by route targets.
    pub name: String,
    /// Cost or share selection.
    pub mode: GroupMode,
    /// The candidate members.
    pub members: Vec<GroupMember>,
}

/// The match clause of a translation rule.
#[derive(Clone, Debug)]
pub struct GttMatch {
    /// A leading prefix of the global title's digits.
    pub gt_prefix: Option<String>,
    /// The global-title indicator.
    pub gti: Option<u8>,
    /// The translation type.
    pub tt: Option<u8>,
    /// The numbering plan.
    pub np: Option<u8>,
    /// The nature-of-address indicator.
    pub nai: Option<u8>,
}

impl Default for GttMatch {
    fn default() -> (r: GttMatch)
        ensures
            r == (GttMatch { gt_prefix: None, gti: None, tt: None, np: None, nai: None }),
    {
        GttMatch { gt_prefix: None, gti: None, tt: None, np: None, nai: None }
    }
}

/// Where a translation or content rule sends a message.
#[derive(Clone, PartialEq, Eq, Debug)]
pub struct RouteTarget {
    /// Route directly to this point code.
    pub dpc: Option<RawPc>,
    /// With this subsystem number.
    pub ssn: Option<u8>,
    /// Route to a named group instead.
    pub group: Option<String>,
    /// Terminate locally.
    pub local: Option<bool>,
    /// Hand off into another routing domain.
    pub tenant: Option<TenantId>,
}

impl Default for RouteTarget {
    fn default() -> (r: RouteTarget)
        ensures
            r == (RouteTarget { dpc: None, ssn: None, group: None, local: None, tenant: None }),
    {
        RouteTarget { dpc: None, ssn: None, group: None, local: None, tenant: None }
    }
}

/// A translation rule: match a global title, produce a result.
#[derive(Clone, Debug)]
pub struct GttRule {
    /// The match criteria.
    pub match_: GttMatch,
    /// The result.
    pub to: RouteTarget,
}

/// An E.212 network mapped to its E.164 prefix.
#[derive(Clone, Debug)]
pub struct PlmnMapEntry {
    /// Mobile Country Code.
    pub mcc: String,
    /// Mobile Network Code.
    pub mnc: String,
    /// The E.164 prefix this network maps to.
    pub e164_prefix: String,
}

/// The numbering plan a conversion rule matches on.
#[derive(Clone, Copy, PartialEq, Eq, Structural, Debug)]
pub enum ConversionNp {
    /// E.214, the mobile global title.
    E214,
    /// E.164.
    E164,
}

/// The match clause of a conversion rule.
#[derive(Clone, Debug)]
pub struct ConversionMatch {
    /// The numbering plan to match.
    pub np: ConversionNp,
    /// An addressing hint.
    pub addressing: Option<String>,
}

/// The action clause of a conversion rule.
#[derive(Clone, Debug)]
pub struct ConversionAction {
    /// Convert E.214 to E.164 via the named map.
    pub to_e164_via: Option<String>,
    /// Convert E.164 to E.214 via the named map.
    pub to_e214_via: Option<String>,
}

/// One conversion rule.
#[derive(Clone, Debug)]
pub struct ConversionRule {
    /// Rule name.
    pub name: String,
    /// The match criteria.
    pub match_: ConversionMatch,
    /// The conversion to apply.
    pub action: ConversionAction,
}

/// The conversion tables between E.214 and E.164.
#[derive(Clone, Debug)]
pub struct GtConversion {
    /// The network numbering map.
    pub plmn_map: Vec<PlmnMapEntry>,
    /// The ordered conversion rules.
    pub rules: Vec<ConversionRule>,
}

impl Default for GtConversion {
    fn default() -> (r: GtConversion)
        ensures
            r.plmn_map@.len() == 0,
            r.rules@.len() == 0,
    {
        GtConversion { plmn_map: Vec::new(), rules: Vec::new() }
    }
}

/// The SCCP block.
#[derive(Clone, Debug)]
pub struct Sccp {
    /// Subsystem numbers we own; inbound for these terminates locally.
    pub local_ssns: Vec<u8>,
    /// Named result groups.
    pub gtt_groups: Vec<GttGroup>,
    /// The ordered translation rules.
    pub gtt: Vec<GttRule>,
    /// Conversion tables.
    pub gt_conversion: GtConversion,
}

impl Sccp {
    /// Holds no subsystem, group, rule or conversion.
    pub open spec fn is_blank(&self) -> bool {
        self.local_ssns@.len() == 0 && self.gtt_groups@.len() == 0 && self.gtt@.len() == 0
            && self.gt_conversion.plmn_map@.len() == 0 && self.gt_conversion.rules@.len() == 0
    }
}

impl Default for Sccp {
    fn default() -> (r: Sccp)
        ensures
            r.is_blank(),
    {
        Sccp {
            local_ssns: Vec::new(),
            gtt_groups: Vec::new(),
            gtt: Vec::new(),
            gt_conversion: GtConversion::default(),
        }
    }
}

/// The timers and ceiling of dialogue termination, shared by all tenants.
#[derive(Clone, Copy, PartialEq, Eq, Structural, Debug)]
pub struct Tcap {
    /// How long an outstanding invoke waits for its result, in milliseconds.
    pub invoke_timer_ms: u64,
    /// How long a dialogue may sit with no activity, in milliseconds.
    pub dialogue_timer_ms: u64,
    /// The maximum number of open dialogues.
    pub max_dialogues: usize,
}

impl Default for Tcap {
    fn default() -> (r: Tcap)
        ensures
            r.invoke_timer_ms == 15_000,
            r.dialogue_timer_ms == 30_000,
            r.max_dialogues == 100_000,
    {
        Tcap { invoke_timer_ms: 15_000, dialogue_timer_ms: 30_000, max_dialogues: 100_000 }
    }
}

/// A named set of global-title digit strings.
#[derive(Clone, Debug)]
pub struct AddressTable {
    /// Name, referenced by content matches.
    pub name: String,
    /// The member digit strings.
    pub addrs: Vec<String>,
}

/// A named set of IMSI prefixes.
#[derive(Clone, Debug)]
pub struct ImsiTable {
    /// Name, referenced by content matches.
    pub name: String,
    /// The member prefixes.
    pub prefixes: Vec<String>,
}

/// The match clause of a content rule. All present fields must hold; absent
/// fields are wildcards.
#[derive(Clone, Debug)]
pub struct ContentMatch {
    /// One or more operations by kebab-case name.
    pub operation: Option<OneOrMany>,
    /// The IMSI is in this table.
    pub imsi_in: Option<String>,
    /// The IMSI starts with this prefix.
    pub imsi_prefix: Option<String>,
    /// The called-party digits are in this table.
    pub cdpa_gt_in: Option<String>,
    /// The calling-party digits are in this table.
    pub cgpa_gt_in: Option<String>,
}

impl Default for ContentMatch {
    fn default() -> (r: ContentMatch)
        ensures
            r == (ContentMatch {
                operation: None,
                imsi_in: None,
                imsi_prefix: None,
                cdpa_gt_in: None,
                cgpa_gt_in: None,
            }),
    {
        ContentMatch {
            operation: None,
            imsi_in: None,
            imsi_prefix: None,
            cdpa_gt_in: None,
            cgpa_gt_in: None,
        }
    }
}

/// A scalar or a sequence: `operation: sri-sm` or `operation: [a, b]`.
#[derive(Clone, Debug)]
pub enum OneOrMany {
    /// A single value.
    One(String),
    /// A list of values.
    Many(Vec<String>),
}

impl OneOrMany {
    /// The values in order.
    pub open spec fn values(&self) -> Seq<Seq<char>> {
        match *self {
            OneOrMany::One(s) => seq![s@],
            OneOrMany::Many(v) => v@.map_values(|s: String| s@),
        }
    }

    /// The values in order.
    pub fn as_slice(&self) -> (r: Vec<&str>)
        ensures
            r@.map_values(|s: &str| s@) == self.values(),
    {
        let mut out: Vec<&str> = Vec::new();
        match self {
            OneOrMany::One(s) => {
                out.push(s.as_str());
                proof {
                    assert(out@.map_values(|s: &str| s@) =~= self.values());
                }
            },
            OneOrMany::Many(v) => {
                let mut i: usize = 0;
                while i < v.len()
                    invariant
                        i <= v@.len(),
                        out@.len() == i,
                        forall|k: int| 0 <= k < i ==> (#[trigger] out@[k])@ == v@[k]@,
                    decreases v.len() - i,
                {
                    out.push(v[i].as_str());
                    i += 1;
                }
                proof {
                    assert(out@.map_values(|s: &str| s@) =~= self.values());
                }
            },
        }
        out
    }
}

/// The action clause of a content rule.
#[derive(Clone, Debug)]
pub struct ContentAction {
    /// Route to a point code, a group or another tenant.
    pub route: Option<RouteTarget>,
    /// Rewrite the called-party digits before forwarding.
    pub rewrite_cdpa_gt: Option<String>,
    /// Drop the message.
    pub screen: Option<bool>,
    /// Defer to a named script hook.
    pub python: Option<String>,
}

impl Default for ContentAction {
    fn default() -> (r: ContentAction)
        ensures
            r == (ContentAction { route: None, rewrite_cdpa_gt: None, screen: None, python: None }),
    {
        ContentAction { route: None, rewrite_cdpa_gt: None, screen: None, python: None }
    }
}

/// One content rule.
#[derive(Clone, Debug)]
pub struct ContentRule {
    /// Rule name.
    pub name: String,
    /// The match criteria.
    pub match_: ContentMatch,
    /// What to do on the first match.
    pub action: ContentAction,
}

/// The application protocol content routing decodes.
#[derive(Clone, Copy, PartialEq, Eq, Structural, Debug)]
pub enum ContentProtocol {
    /// GSM MAP.
    GsmMap,
    /// CAMEL CAP.
    GsmCap,
}

/// The content-routing block.
#[derive(Clone, Debug)]
pub struct ContentRouting {
    /// Which application layer to decode.
    pub protocol: ContentProtocol,
    /// Named digit tables.
    pub address_tables: Vec<AddressTable>,
    /// Named IMSI-prefix tables.
    pub imsi_tables: Vec<ImsiTable>,
    /// The ordered rules; the first match wins.
    pub rules: Vec<ContentRule>,
}

/// What ISUP screening does with a message.
#[derive(Clone, Copy, PartialEq, Eq, Structural, Debug)]
pub enum ScreenAction {
    /// Drop it.
    Block,
    /// Let it transit.
    Allow,
}

/// The match clause of a screening rule. All present fields must hold; absent
/// fields are wildcards.
#[derive(Clone, Debug)]
pub struct ScreenMatch {
    /// The ISUP message type by acronym (`iam`, `rel`, ...).
    pub message_type: Option<String>,
    /// A leading prefix of the called-party number.
    pub called_prefix: Option<String>,
    /// A leading prefix of the calling-party number.
    pub calling_prefix: Option<String>,
}

impl Default for ScreenMatch {
    fn default() -> (r: ScreenMatch)
        ensures
            r == (ScreenMatch { message_type: None, called_prefix: None, calling_prefix: None }),
    {
        ScreenMatch { message_type: None, called_prefix: None, calling_prefix: None }
    }
}

/// One screening rule.
#[derive(Clone, Debug)]
pub struct ScreenRule {
    /// Rule name.
    pub name: String,
    /// The match criteria.
    pub match_: ScreenMatch,
    /// What to do on a match.
    pub action: ScreenAction,
}

/// The ISUP screening block: ordered rules and what to do when none matches.
#[derive(Clone, Debug)]
pub struct IsupScreening {
    /// The action when no rule matches.
    pub default: ScreenAction,
    /// The ordered rules; the first match wins.
    pub rules: Vec<ScreenRule>,
}

/// The routing tables of one tenant.
#[derive(Clone, Debug)]
pub struct Tenant {
    /// The tenant's own point code.
    pub point_code: RawPc,
    /// The tenant's SS7 variant.
    pub variant: Variant,
    /// The network indicator of messages it originates.
    pub network_indicator: NetworkIndicator,
    /// The M3UA Application Servers.
    pub application_servers: Vec<ApplicationServer>,
    /// The M2PA linksets.
    pub linksets: Vec<Linkset>,
    /// The MTP3 route table.
    pub mtp3_routes: Vec<Mtp3Route>,
    /// The SCCP tables.
    pub sccp: Sccp,
    /// The content-routing rules.
    pub content_routing: Option<ContentRouting>,
    /// The ISUP screening rules.
    pub isup_screening: Option<IsupScreening>,
}

impl Tenant {
    /// This tenant's own point code under its variant.
    pub fn resolved_point_code(&self) -> (r: Result<PointCode>)
        ensures
            match resolved(self.point_code.0, self.variant) {
                Ok(p) => r == Ok::<PointCode, Error>(p),
                Err(e) => r matches Err(x) && x@ == Fault::PointCode(e),
            },
    {
        match self.point_code.resolve(self.variant) {
            Ok(p) => Ok(p),
            Err(e) => Err(Error::PointCode(e)),
        }
    }
}

/// A configuration file as it was read: either flat, the implicit default
/// tenant, or with a map of tenants. [`Config::from_raw`] folds the two.
#[derive(Clone, Debug)]
pub struct RawFile {
    pub node: Option<Node>,
    pub associations: Vec<Association>,
    pub application_servers: Vec<ApplicationServer>,
    pub linksets: Vec<Linkset>,
    pub mtp3_routes: Vec<Mtp3Route>,
    pub sccp: Option<Sccp>,
    pub content_routing: Option<ContentRouting>,
    pub isup_screening: Option<IsupScreening>,
    pub tcap: Option<Tcap>,
    pub tenants: Option<NameMap<Tenant>>,
}

/// The normalised node configuration: the SCTP associations shared by all
/// tenants, and the tenants by name.
#[derive(Clone, Debug)]
pub struct Config {
    /// The SCTP transport plane, shared across tenants.
    pub associations: Vec<Association>,
    /// The dialogue-termination settings.
    pub tcap: Tcap,
    /// The tenants by id.
    pub tenants: NameMap<Tenant>,
}

impl RawFile {
    /// The file sets some routing table at its top level.
    pub open spec fn has_flat_routing(&self) -> bool {
        self.application_servers@.len() > 0 || self.linksets@.len() > 0 || self.mtp3_routes@.len()
            > 0 || self.sccp is Some || self.content_routing is Some || self.isup_screening is Some
    }

    /// Why the file cannot be normalised, if it cannot.
    pub open spec fn shape_fault(&self) -> Option<Seq<char>> {
        match self.tenants {
            Some(map) => if map.size() == 0 {
                Some("`tenants:` is present but empty"@)
            } else if self.has_flat_routing() {
                Some(
                    "top-level routing fields (application_servers/linksets/mtp3_routes/sccp/content_routing) cannot be mixed with an explicit `tenants:` block"@,
                )
            } else {
                None
            },
            None => if self.node is None {
                Some("missing `node:` block"@)
            } else {
                None
            },
        }
    }

    /// `t` is the tenant that the top level of this flat file describes.
    pub open spec fn folds_into(&self, t: Tenant) -> bool {
        &&& self.node matches Some(n) && t.point_code == n.point_code && t.variant == n.variant
            && t.network_indicator == n.network_indicator
        &&& t.application_servers == self.application_servers
        &&& t.linksets == self.linksets
        &&& t.mtp3_routes == self.mtp3_routes
        &&& t.content_routing == self.content_routing
        &&& t.isup_screening == self.isup_screening
        &&& match self.sccp {
            Some(s) => t.sccp == s,
            None => t.sccp.is_blank(),
        }
    }

    /// `c` is the normal form of this file: an explicit map of tenants is kept
    /// as it is, and a flat file becomes the single tenant `default`.
    pub open spec fn normalises_to(&self, c: Config) -> bool {
        &&& c.associations == self.associations
        &&& match self.tcap {
            Some(t) => c.tcap == t,
            None => c.tcap == (Tcap {
                invoke_timer_ms: 15_000,
                dialogue_timer_ms: 30_000,
                max_dialogues: 100_000,
            }),
        }
        &&& c.tenants.wf()
        &&& match self.tenants {
            Some(map) => c.tenants == map,
            None => c.tenants.size() == 1 && c.tenants@.dom() == set![DEFAULT_TENANT@]
                && self.folds_into(c.tenants@[DEFAULT_TENANT@]),
        }
    }
}

impl Config {
    /// Normalises a file: folds a flat top level into the implicit `default`
    /// tenant, or takes the explicit tenants as they are. It fails exactly when
    /// the file has neither a node nor tenants, an empty map of tenants, or both
    /// tenants and top-level routing tables.
    pub fn from_raw(raw: RawFile) -> (r: Result<Config>)
        requires
            raw.tenants matches Some(map) ==> map.wf(),
        ensures
            match raw.shape_fault() {
                Some(text) => r matches Err(e) && e@ == Fault::Validation(text),
                None => r matches Ok(c) && raw.normalises_to(c),
            },
    {
        let tenants = match raw.tenants {
            Some(map) => {
                if map.is_empty() {
                    return Err(Error::validation("`tenants:` is present but empty".to_owned()));
                }
                if raw.application_servers.len() > 0 || raw.linksets.len() > 0
                    || raw.mtp3_routes.len() > 0 || raw.sccp.is_some()
                    || raw.content_routing.is_some() || raw.isup_screening.is_some() {
                    return Err(
                        Error::validation(
                            "top-level routing fields (application_servers/linksets/mtp3_routes/sccp/content_routing) cannot be mixed with an explicit `tenants:` block".to_owned(),
                        ),
                    );
                }
                map
            },
            None => {
                let node = match raw.node {
                    Some(n) => n,
                    None => {
                        return Err(Error::validation("missing `node:` block".to_owned()));
                    },
                };
                let sccp = match raw.sccp {
                    Some(s) => s,
                    None => Sccp::default(),
                };
                let mut map: NameMap<Tenant> = NameMap::new();
                map.insert(
                    DEFAULT_TENANT.to_owned(),
                    Tenant {
                        point_code: node.point_code,
                        variant: node.variant,
                        network_indicator: node.network_indicator,
                        application_servers: raw.application_servers,
                        linksets: raw.linksets,
                        mtp3_routes: raw.mtp3_routes,
                        sccp,
                        content_routing: raw.content_routing,
                        isup_screening: raw.isup_screening,
                    },
                );
                proof {
                    assert(map@.dom() =~= set![DEFAULT_TENANT@]);
                }
                map
            },
        };
        let tcap = match raw.tcap {
            Some(t) => t,
            None => Tcap::default(),
        };
        Ok(Config { associations: raw.associations, tcap, tenants })
    }

    /// The tenant with this id.
    pub fn tenant(&self, id: &str) -> (r: Option<&Tenant>)
        requires
            self.tenants.wf(),
        ensures
            r is Some <==> self.tenants@.contains_key(id@),
            r matches Some(t) ==> *t == self.tenants@[id@],
    {
        self.tenants.lookup(id)
    }

    /// The tenant called `default`.
    pub fn default_tenant(&self) -> (r: Option<&Tenant>)
        requires
            self.tenants.wf(),
        ensures
            r is Some <==> self.tenants@.contains_key(DEFAULT_TENANT@),
            r matches Some(t) ==> *t == self.tenants@[DEFAULT_TENANT@],
    {
        self.tenants.lookup(DEFAULT_TENANT)
    }
}

/// A flat file always gives a configuration whose only tenant is `default`.
pub proof fn law_flat_file_is_default_tenant(raw: RawFile, c: Config)
    requires
        raw.tenants is None,
        raw.normalises_to(c),
    ensures
        c.tenants@.contains_key(DEFAULT_TENANT@),
        forall|id: Seq<char>| c.tenants@.contains_key(id) ==> id == DEFAULT_TENANT@,
{
    assert(c.tenants@.dom().contains(DEFAULT_TENANT@));
    assert forall|id: Seq<char>| c.tenants@.contains_key(id) implies id == DEFAULT_TENANT@ by {
        assert(c.tenants@.dom().contains(id));
    }
}

} // verus!
