//! Validation of a normalised configuration: point codes fit their variant,
//! names are unique, and every reference resolves. The first problem found, in
//! the order of the file, is the error.
use crate::config::{
    Adaptation, ApplicationServer, Association, Config, ContentProtocol, ContentRouting, ContentRule, GttGroup,
    ImsiTable, AddressTable, Linkset, RawFile, RouteTarget, Tenant,
};
use crate::content::operation::{camel, operation_named, Operation};
use crate::error::{Error, Fault, Result};
use crate::point_code::{resolved, PointCode, RawPc, Variant};
use crate::text::{decimal, decimal_of, join2, join3, join5, same};
use vstd::prelude::*;
use vstd::string::*;

verus! {

/// The first of `f(from)`, `f(from + 1)`, ..., `f(n - 1)` that is a fault.
pub open spec fn first_fault<E>(f: spec_fn(int) -> Option<E>, from: int, n: int) -> Option<E>
    decreases n - from,
{
    if from >= n {
        None
    } else if f(from) is Some {
        f(from)
    } else {
        first_fault(f, from + 1, n)
    }
}

/// `a` if it is a fault, else `b`.
pub open spec fn either<E>(a: Option<E>, b: Option<E>) -> Option<E> {
    if a is Some {
        a
    } else {
        b
    }
}

/// The text of an optional message.
pub open spec fn text_of(m: Option<String>) -> Option<Seq<char>> {
    match m {
        Some(s) => Some(s@),
        None => None,
    }
}

/// The fault of an optional error.
pub open spec fn fault_of(m: Option<Error>) -> Option<Fault> {
    match m {
        Some(e) => Some(e@),
        None => None,
    }
}

/// The texts of a list of strings.
pub open spec fn texts(s: Seq<&str>) -> Seq<Seq<char>> {
    s.map_values(|x: &str| x@)
}

/// The name at position `i` already occurred before it.
pub open spec fn repeated(names: Seq<Seq<char>>, i: int) -> bool {
    exists|j: int| 0 <= j < i && #[trigger] names[j] == names[i]
}

/// The adaptation of the association called `id`.
pub open spec fn adaptation_of(assocs: Seq<Association>, id: Seq<char>) -> Option<Adaptation>
    decreases assocs.len(),
{
    if assocs.len() == 0 {
        None
    } else if assocs.last().id@ == id {
        Some(assocs.last().adaptation)
    } else {
        adaptation_of(assocs.drop_last(), id)
    }
}

/// The adjacent point code of the association called `id`.
pub open spec fn adjacent_of(assocs: Seq<Association>, id: Seq<char>) -> Option<RawPc>
    decreases assocs.len(),
{
    if assocs.len() == 0 {
        None
    } else if assocs.last().id@ == id {
        assocs.last().adjacent_pc
    } else {
        adjacent_of(assocs.drop_last(), id)
    }
}

/// The name of an adaptation in messages.
pub open spec fn adaptation_text(a: Adaptation) -> Seq<char> {
    match a {
        Adaptation::M3ua => "M3ua"@,
        Adaptation::M2pa => "M2pa"@,
        Adaptation::Sua => "Sua"@,
    }
}

pub open spec fn association_ids(c: &Config) -> Seq<Seq<char>> {
    c.associations@.map_values(|a: Association| a.id@)
}

pub open spec fn server_names(t: &Tenant) -> Seq<Seq<char>> {
    t.application_servers@.map_values(|a: ApplicationServer| a.name@)
}

pub open spec fn linkset_names(t: &Tenant) -> Seq<Seq<char>> {
    t.linksets@.map_values(|l: Linkset| l.name@)
}

pub open spec fn group_names(t: &Tenant) -> Seq<Seq<char>> {
    t.sccp.gtt_groups@.map_values(|g: GttGroup| g.name@)
}

pub open spec fn address_table_names(cr: &ContentRouting) -> Seq<Seq<char>> {
    cr.address_tables@.map_values(|x: AddressTable| x.name@)
}

pub open spec fn imsi_table_names(cr: &ContentRouting) -> Seq<Seq<char>> {
    cr.imsi_tables@.map_values(|x: ImsiTable| x.name@)
}

pub open spec fn rule_names(cr: &ContentRouting) -> Seq<Seq<char>> {
    cr.rules@.map_values(|x: ContentRule| x.name@)
}

/// What is wrong with the association at position `i`.
pub open spec fn association_fault(c: &Config, i: int) -> Option<Fault> {
    let a = c.associations@[i];
    if repeated(association_ids(c), i) {
        Some(Fault::Validation("duplicate association id `"@ + a.id@ + "`"@))
    } else if a.addrs@.len() == 0 {
        Some(Fault::Validation("association `"@ + a.id@ + "` has no addresses"@))
    } else {
        code_fault(a.adjacent_pc, Variant::Ansi)
    }
}

pub open spec fn association_faults(c: &Config) -> spec_fn(int) -> Option<Fault> {
    |i: int| association_fault(c, i)
}

/// What is wrong with ASP `k` of an Application Server.
pub open spec fn asp_fault(c: &Config, a: &ApplicationServer, k: int) -> Option<Seq<char>> {
    let asp = a.asps@[k]@;
    match adaptation_of(c.associations@, asp) {
        None => Some(
            "application_server `"@ + a.name@ + "` references unknown association `"@ + asp + "`"@,
        ),
        Some(Adaptation::M3ua) => None,
        Some(other) => Some(
            "application_server `"@ + a.name@ + "` asp `"@ + asp + "` is a "@ + adaptation_text(
                other,
            ) + " association, an AS is served by m3ua ASPs"@,
        ),
    }
}

pub open spec fn asp_faults(c: &Config, a: &ApplicationServer) -> spec_fn(int) -> Option<Seq<char>> {
    |k: int| asp_fault(c, a, k)
}

/// What is wrong with the Application Server at position `i`.
pub open spec fn server_fault(c: &Config, t: &Tenant, i: int) -> Option<Seq<char>> {
    let a = t.application_servers@[i];
    if repeated(server_names(t), i) {
        Some("duplicate route destination `"@ + a.name@ + "`"@)
    } else if a.asps@.len() == 0 {
        Some("application_server `"@ + a.name@ + "` has no asps"@)
    } else {
        first_fault(asp_faults(c, &a), 0, a.asps@.len() as int)
    }
}

pub open spec fn server_faults(c: &Config, t: &Tenant) -> spec_fn(int) -> Option<Seq<char>> {
    |i: int| server_fault(c, t, i)
}

/// What is wrong with link `k` of a linkset: its association is not a known M2PA
/// one, or leads to an adjacent point code that does not fit the tenant's variant.
pub open spec fn link_fault(c: &Config, t: &Tenant, l: &Linkset, k: int) -> Option<Seq<char>> {
    let assoc = l.links@[k].assoc@;
    match adaptation_of(c.associations@, assoc) {
        None => Some("linkset `"@ + l.name@ + "` references unknown association `"@ + assoc + "`"@),
        Some(Adaptation::M2pa) => match adjacent_of(c.associations@, assoc) {
            Some(pc) => match resolved(pc.0, t.variant) {
                Ok(_) => None,
                Err(e) => Some(
                    "linkset `"@ + l.name@ + "` link `"@ + assoc + "` adjacent_pc: "@ + e.text(),
                ),
            },
            None => None,
        },
        Some(other) => Some(
            "linkset `"@ + l.name@ + "` link `"@ + assoc + "` is a "@ + adaptation_text(other)
                + " association, a linkset carries m2pa links"@,
        ),
    }
}

pub open spec fn link_faults(c: &Config, t: &Tenant, l: &Linkset) -> spec_fn(int) -> Option<
    Seq<char>,
> {
    |k: int| link_fault(c, t, l, k)
}

/// What is wrong with the linkset at position `i`. Linkset names share one
/// namespace with Application Server names.
pub open spec fn linkset_fault(c: &Config, t: &Tenant, i: int) -> Option<Seq<char>> {
    let l = t.linksets@[i];
    if server_names(t).contains(l.name@) {
        Some("collides with application_server `"@ + l.name@ + "`"@)
    } else if repeated(linkset_names(t), i) {
        Some("duplicate route destination `"@ + l.name@ + "`"@)
    } else if l.links@.len() == 0 {
        Some("linkset `"@ + l.name@ + "` has no links"@)
    } else {
        first_fault(link_faults(c, t, &l), 0, l.links@.len() as int)
    }
}

pub open spec fn linkset_faults(c: &Config, t: &Tenant) -> spec_fn(int) -> Option<Seq<char>> {
    |i: int| linkset_fault(c, t, i)
}

/// What is wrong with the MTP3 route at position `i`: its point code does not
/// fit, it names neither or both kinds of destination, or an unknown one.
pub open spec fn route_fault(t: &Tenant, i: int) -> Option<Seq<char>> {
    let r = t.mtp3_routes@[i];
    let to = "mtp3_route to "@ + decimal(r.dpc.0 as nat);
    match resolved(r.dpc.0, t.variant) {
        Err(e) => Some("mtp3_route dpc: "@ + e.text()),
        Ok(_) => match (r.as_, r.linkset) {
            (Some(a), None) => if server_names(t).contains(a@) {
                None
            } else {
                Some(to + " references unknown application_server `"@ + a@ + "`"@)
            },
            (None, Some(l)) => if linkset_names(t).contains(l@) {
                None
            } else {
                Some(to + " references unknown linkset `"@ + l@ + "`"@)
            },
            (Some(_), Some(_)) => Some(to + " sets both `as:` and `linkset:` (pick one)"@),
            (None, None) => Some(to + " sets neither `as:` nor `linkset:`"@),
        },
    }
}

pub open spec fn route_faults(t: &Tenant) -> spec_fn(int) -> Option<Seq<char>> {
    |i: int| route_fault(t, i)
}

/// What is wrong with member `k` of a translation group.
pub open spec fn member_fault(t: &Tenant, g: &GttGroup, k: int) -> Option<Seq<char>> {
    match resolved(g.members@[k].dpc.0, t.variant) {
        Ok(_) => None,
        Err(e) => Some("gtt_group `"@ + g.name@ + "` member dpc: "@ + e.text()),
    }
}

pub open spec fn member_faults(t: &Tenant, g: &GttGroup) -> spec_fn(int) -> Option<Seq<char>> {
    |k: int| member_fault(t, g, k)
}

/// What is wrong with the translation group at position `i`.
pub open spec fn group_fault(t: &Tenant, i: int) -> Option<Seq<char>> {
    let g = t.sccp.gtt_groups@[i];
    if repeated(group_names(t), i) {
        Some("duplicate gtt_group `"@ + g.name@ + "`"@)
    } else if g.members@.len() == 0 {
        Some("gtt_group `"@ + g.name@ + "` has no members"@)
    } else {
        first_fault(member_faults(t, &g), 0, g.members@.len() as int)
    }
}

pub open spec fn group_faults(t: &Tenant) -> spec_fn(int) -> Option<Seq<char>> {
    |i: int| group_fault(t, i)
}

/// How many destinations a route target names. A point code next to a tenant is
/// the point code within that tenant and names nothing of its own.
pub open spec fn destinations_named(x: &RouteTarget) -> int {
    (if x.dpc is Some && x.tenant is None {
        1int
    } else {
        0
    }) + (if x.group is Some {
        1int
    } else {
        0
    }) + (if x.local == Some(true) {
        1int
    } else {
        0
    }) + (if x.tenant is Some {
        1int
    } else {
        0
    })
}

/// What is wrong with an optional point code.
pub open spec fn code_fault(pc: Option<RawPc>, variant: Variant) -> Option<Fault> {
    match pc {
        Some(raw) => match resolved(raw.0, variant) {
            Ok(_) => None,
            Err(e) => Some(Fault::PointCode(e)),
        },
        None => None,
    }
}

/// What is wrong with a route target. It must name exactly one destination, and
/// the point code, group or tenant that it names must resolve.
pub open spec fn target_fault(c: &Config, t: &Tenant, x: &RouteTarget) -> Option<Fault> {
    if destinations_named(x) == 0 {
        Some(Fault::Validation("route target names nothing"@))
    } else if destinations_named(x) > 1 {
        Some(Fault::Validation("route target names more than one of dpc/group/local/tenant"@))
    } else if code_fault(x.dpc, t.variant) is Some {
        code_fault(x.dpc, t.variant)
    } else if x.group matches Some(g) && !group_names(t).contains(g@) {
        Some(Fault::Validation("unknown gtt_group `"@ + x.group->0@ + "`"@))
    } else if x.tenant matches Some(n) && !c.tenants@.contains_key(n@) {
        Some(Fault::Validation("unknown tenant `"@ + x.tenant->0@ + "`"@))
    } else {
        None
    }
}

/// What is wrong with the translation rule at position `i`.
pub open spec fn gtt_fault(c: &Config, t: &Tenant, i: int) -> Option<Seq<char>> {
    match target_fault(c, t, &t.sccp.gtt@[i].to) {
        Some(f) => Some("gtt rule: "@ + f.text()),
        None => None,
    }
}

pub open spec fn gtt_faults(c: &Config, t: &Tenant) -> spec_fn(int) -> Option<Seq<char>> {
    |i: int| gtt_fault(c, t, i)
}

pub open spec fn address_table_fault(cr: &ContentRouting, i: int) -> Option<Seq<char>> {
    if repeated(address_table_names(cr), i) {
        Some("duplicate address_table `"@ + cr.address_tables@[i].name@ + "`"@)
    } else {
        None
    }
}

pub open spec fn address_table_faults(cr: &ContentRouting) -> spec_fn(int) -> Option<Seq<char>> {
    |i: int| address_table_fault(cr, i)
}

pub open spec fn imsi_table_fault(cr: &ContentRouting, i: int) -> Option<Seq<char>> {
    if repeated(imsi_table_names(cr), i) {
        Some("duplicate imsi_table `"@ + cr.imsi_tables@[i].name@ + "`"@)
    } else {
        None
    }
}

pub open spec fn imsi_table_faults(cr: &ContentRouting) -> spec_fn(int) -> Option<Seq<char>> {
    |i: int| imsi_table_fault(cr, i)
}

/// What is wrong with a reference from a content rule to an address table.
pub open spec fn table_ref_fault(
    cr: &ContentRouting,
    rule: &ContentRule,
    field: Seq<char>,
    table: Option<String>,
) -> Option<Seq<char>> {
    match table {
        Some(x) => if address_table_names(cr).contains(x@) {
            None
        } else {
            Some(
                "content rule `"@ + rule.name@ + "` "@ + field
                    + " references unknown address_table `"@ + x@ + "`"@,
            )
        },
        None => None,
    }
}

/// The name of a content protocol in messages.
pub open spec fn protocol_text(p: ContentProtocol) -> Seq<char> {
    match p {
        ContentProtocol::GsmMap => "gsm-map"@,
        ContentProtocol::GsmCap => "gsm-cap"@,
    }
}

/// The operation belongs to the content protocol.
pub open spec fn of_protocol(op: Operation, p: ContentProtocol) -> bool {
    camel(op) == (p == ContentProtocol::GsmCap)
}

/// What is wrong with operation name `k` of a content rule: it is unknown, or an
/// operation of another protocol than the declared one.
pub open spec fn operation_fault(
    p: ContentProtocol,
    rule: &ContentRule,
    ops: Seq<Seq<char>>,
    k: int,
) -> Option<Seq<char>> {
    match operation_named(ops[k]) {
        Some(op) => if of_protocol(op, p) {
            None
        } else {
            Some(
                "content rule `"@ + rule.name@ + "` operation `"@ + ops[k] + "` is not a "@
                    + protocol_text(p) + " operation"@,
            )
        },
        None => Some(
            "content rule `"@ + rule.name@ + "` names unknown operation `"@ + ops[k] + "`"@,
        ),
    }
}

pub open spec fn operation_faults(
    p: ContentProtocol,
    rule: &ContentRule,
    ops: Seq<Seq<char>>,
) -> spec_fn(int) -> Option<Seq<char>> {
    |k: int| operation_fault(p, rule, ops, k)
}

pub open spec fn rule_imsi_fault(cr: &ContentRouting, rule: &ContentRule) -> Option<Seq<char>> {
    match rule.match_.imsi_in {
        Some(x) => if imsi_table_names(cr).contains(x@) {
            None
        } else {
            Some("content rule `"@ + rule.name@ + "` matches unknown imsi_table `"@ + x@ + "`"@)
        },
        None => None,
    }
}

pub open spec fn rule_operations_fault(p: ContentProtocol, rule: &ContentRule) -> Option<
    Seq<char>,
> {
    match rule.match_.operation {
        Some(ops) => first_fault(
            operation_faults(p, rule, ops.values()),
            0,
            ops.values().len() as int,
        ),
        None => None,
    }
}

pub open spec fn rule_target_fault(c: &Config, t: &Tenant, rule: &ContentRule) -> Option<
    Seq<char>,
> {
    match rule.action.route {
        Some(x) => match target_fault(c, t, &x) {
            Some(f) => Some("content rule `"@ + rule.name@ + "`: "@ + f.text()),
            None => None,
        },
        None => None,
    }
}

/// What is wrong with the content rule at position `i`.
pub open spec fn rule_fault(c: &Config, t: &Tenant, cr: &ContentRouting, i: int) -> Option<
    Seq<char>,
> {
    let rule = cr.rules@[i];
    if repeated(rule_names(cr), i) {
        Some("duplicate content rule `"@ + rule.name@ + "`"@)
    } else {
        either(
            rule_imsi_fault(cr, &rule),
            either(
                table_ref_fault(cr, &rule, "cdpa_gt_in"@, rule.match_.cdpa_gt_in),
                either(
                    table_ref_fault(cr, &rule, "cgpa_gt_in"@, rule.match_.cgpa_gt_in),
                    either(rule_operations_fault(cr.protocol, &rule), rule_target_fault(c, t, &rule)),
                ),
            ),
        )
    }
}

pub open spec fn rule_faults(c: &Config, t: &Tenant, cr: &ContentRouting) -> spec_fn(int) -> Option<
    Seq<char>,
> {
    |i: int| rule_fault(c, t, cr, i)
}

/// What is wrong with a content-routing block.
pub open spec fn content_fault(c: &Config, t: &Tenant, cr: &ContentRouting) -> Option<Seq<char>> {
    either(
        first_fault(address_table_faults(cr), 0, cr.address_tables@.len() as int),
        either(
            first_fault(imsi_table_faults(cr), 0, cr.imsi_tables@.len() as int),
            first_fault(rule_faults(c, t, cr), 0, cr.rules@.len() as int),
        ),
    )
}

pub open spec fn own_code_fault(t: &Tenant) -> Option<Seq<char>> {
    match resolved(t.point_code.0, t.variant) {
        Ok(_) => None,
        Err(e) => Some("point_code: "@ + Fault::PointCode(e).text()),
    }
}

/// The first thing wrong with a tenant.
pub open spec fn tenant_fault(c: &Config, t: &Tenant) -> Option<Seq<char>> {
    either(
        own_code_fault(t),
        either(
            first_fault(server_faults(c, t), 0, t.application_servers@.len() as int),
            either(
                first_fault(linkset_faults(c, t), 0, t.linksets@.len() as int),
                either(
                    first_fault(route_faults(t), 0, t.mtp3_routes@.len() as int),
                    either(
                        first_fault(group_faults(t), 0, t.sccp.gtt_groups@.len() as int),
                        either(
                            first_fault(gtt_faults(c, t), 0, t.sccp.gtt@.len() as int),
                            match t.content_routing {
                                Some(cr) => content_fault(c, t, &cr),
                                None => None,
                            },
                        ),
                    ),
                ),
            ),
        ),
    )
}

/// What is wrong with the tenant at position `i` in order of name.
pub open spec fn named_tenant_fault(c: &Config, i: int) -> Option<Fault> {
    match tenant_fault(c, &c.tenants.value_at(i)) {
        Some(m) => Some(Fault::Validation("tenant `"@ + c.tenants.key_at(i) + "`: "@ + m)),
        None => None,
    }
}

pub open spec fn named_tenant_faults(c: &Config) -> spec_fn(int) -> Option<Fault> {
    |i: int| named_tenant_fault(c, i)
}

/// The first thing wrong with a configuration.
pub open spec fn config_fault(c: &Config) -> Option<Fault> {
    either(
        first_fault(association_faults(c), 0, c.associations@.len() as int),
        first_fault(named_tenant_faults(c), 0, c.tenants.size() as int),
    )
}

// ── Executable checks ───────────────────────────────────────────────────────

/// Whether `x` is one of `names`.
fn contains_name(names: &Vec<&str>, x: &str) -> (r: bool)
    ensures
        r == texts(names@).contains(x@),
{
    let mut i: usize = 0;
    while i < names.len()
        invariant
            i <= names@.len(),
            forall|k: int| 0 <= k < i ==> (#[trigger] names@[k])@ != x@,
        decreases names.len() - i,
    {
        if same(names[i], x) {
            proof {
                assert(texts(names@)[i as int] == x@);
            }
            return true;
        }
        i += 1;
    }
    proof {
        assert forall|k: int| 0 <= k < texts(names@).len() implies texts(names@)[k] != x@ by {
            assert(names@[k]@ != x@);
        }
    }
    false
}

/// Whether the name at position `i` occurred before it.
fn seen_before(names: &Vec<&str>, i: usize) -> (r: bool)
    requires
        i < names@.len(),
    ensures
        r == repeated(texts(names@), i as int),
{
    let mut j: usize = 0;
    while j < i
        invariant
            j <= i < names@.len(),
            forall|k: int| 0 <= k < j ==> (#[trigger] names@[k])@ != names@[i as int]@,
        decreases i - j,
    {
        if same(names[j], names[i]) {
            proof {
                assert(texts(names@)[j as int] == texts(names@)[i as int]);
            }
            return true;
        }
        j += 1;
    }
    proof {
        assert forall|k: int| 0 <= k < i implies #[trigger] texts(names@)[k] != texts(
            names@,
        )[i as int] by {
            assert(names@[k]@ != names@[i as int]@);
        }
    }
    false
}

fn adaptation_name(a: Adaptation) -> (r: &'static str)
    ensures
        r@ == adaptation_text(a),
{
    match a {
        Adaptation::M3ua => "M3ua",
        Adaptation::M2pa => "M2pa",
        Adaptation::Sua => "Sua",
    }
}

fn find_adaptation(assocs: &Vec<Association>, id: &str) -> (r: Option<Adaptation>)
    ensures
        r == adaptation_of(assocs@, id@),
{
    let mut n: usize = assocs.len();
    proof {
        assert(assocs@.subrange(0, n as int) =~= assocs@);
    }
    while n > 0
        invariant
            n <= assocs@.len(),
            adaptation_of(assocs@, id@) == adaptation_of(assocs@.subrange(0, n as int), id@),
        decreases n,
    {
        proof {
            assert(assocs@.subrange(0, n as int).drop_last() =~= assocs@.subrange(0, n - 1));
        }
        if same(assocs[n - 1].id.as_str(), id) {
            return Some(assocs[n - 1].adaptation);
        }
        n -= 1;
    }
    None
}

fn find_adjacent(assocs: &Vec<Association>, id: &str) -> (r: Option<RawPc>)
    ensures
        r == adjacent_of(assocs@, id@),
{
    let mut n: usize = assocs.len();
    proof {
        assert(assocs@.subrange(0, n as int) =~= assocs@);
    }
    while n > 0
        invariant
            n <= assocs@.len(),
            adjacent_of(assocs@, id@) == adjacent_of(assocs@.subrange(0, n as int), id@),
        decreases n,
    {
        proof {
            assert(assocs@.subrange(0, n as int).drop_last() =~= assocs@.subrange(0, n - 1));
        }
        if same(assocs[n - 1].id.as_str(), id) {
            return assocs[n - 1].adjacent_pc;
        }
        n -= 1;
    }
    None
}

fn list_association_ids<'a>(c: &'a Config) -> (r: Vec<&'a str>)
    ensures
        texts(r@) == association_ids(c),
{
    let mut out: Vec<&'a str> = Vec::new();
    let mut i: usize = 0;
    while i < c.associations.len()
        invariant
            i <= c.associations@.len(),
            out@.len() == i,
            forall|k: int| 0 <= k < i ==> (#[trigger] out@[k])@ == c.associations@[k].id@,
        decreases c.associations.len() - i,
    {
        out.push(c.associations[i].id.as_str());
        i += 1;
    }
    proof {
        assert(texts(out@) =~= association_ids(c));
    }
    out
}

fn list_server_names<'a>(t: &'a Tenant) -> (r: Vec<&'a str>)
    ensures
        texts(r@) == server_names(t),
{
    let mut out: Vec<&'a str> = Vec::new();
    let mut i: usize = 0;
    while i < t.application_servers.len()
        invariant
            i <= t.application_servers@.len(),
            out@.len() == i,
            forall|k: int| 0 <= k < i ==> (#[trigger] out@[k])@ == t.application_servers@[k].name@,
        decreases t.application_servers.len() - i,
    {
        out.push(t.application_servers[i].name.as_str());
        i += 1;
    }
    proof {
        assert(texts(out@) =~= server_names(t));
    }
    out
}

fn list_linkset_names<'a>(t: &'a Tenant) -> (r: Vec<&'a str>)
    ensures
        texts(r@) == linkset_names(t),
{
    let mut out: Vec<&'a str> = Vec::new();
    let mut i: usize = 0;
    while i < t.linksets.len()
        invariant
            i <= t.linksets@.len(),
            out@.len() == i,
            forall|k: int| 0 <= k < i ==> (#[trigger] out@[k])@ == t.linksets@[k].name@,
        decreases t.linksets.len() - i,
    {
        out.push(t.linksets[i].name.as_str());
        i += 1;
    }
    proof {
        assert(texts(out@) =~= linkset_names(t));
    }
    out
}

fn list_group_names<'a>(t: &'a Tenant) -> (r: Vec<&'a str>)
    ensures
        texts(r@) == group_names(t),
{
    let mut out: Vec<&'a str> = Vec::new();
    let mut i: usize = 0;
    while i < t.sccp.gtt_groups.len()
        invariant
            i <= t.sccp.gtt_groups@.len(),
            out@.len() == i,
            forall|k: int| 0 <= k < i ==> (#[trigger] out@[k])@ == t.sccp.gtt_groups@[k].name@,
        decreases t.sccp.gtt_groups.len() - i,
    {
        out.push(t.sccp.gtt_groups[i].name.as_str());
        i += 1;
    }
    proof {
        assert(texts(out@) =~= group_names(t));
    }
    out
}

fn list_address_tables<'a>(cr: &'a ContentRouting) -> (r: Vec<&'a str>)
    ensures
        texts(r@) == address_table_names(cr),
{
    let mut out: Vec<&'a str> = Vec::new();
    let mut i: usize = 0;
    while i < cr.address_tables.len()
        invariant
            i <= cr.address_tables@.len(),
            out@.len() == i,
            forall|k: int| 0 <= k < i ==> (#[trigger] out@[k])@ == cr.address_tables@[k].name@,
        decreases cr.address_tables.len() - i,
    {
        out.push(cr.address_tables[i].name.as_str());
        i += 1;
    }
    proof {
        assert(texts(out@) =~= address_table_names(cr));
    }
    out
}

fn list_imsi_tables<'a>(cr: &'a ContentRouting) -> (r: Vec<&'a str>)
    ensures
        texts(r@) == imsi_table_names(cr),
{
    let mut out: Vec<&'a str> = Vec::new();
    let mut i: usize = 0;
    while i < cr.imsi_tables.len()
        invariant
            i <= cr.imsi_tables@.len(),
            out@.len() == i,
            forall|k: int| 0 <= k < i ==> (#[trigger] out@[k])@ == cr.imsi_tables@[k].name@,
        decreases cr.imsi_tables.len() - i,
    {
        out.push(cr.imsi_tables[i].name.as_str());
        i += 1;
    }
    proof {
        assert(texts(out@) =~= imsi_table_names(cr));
    }
    out
}

fn list_rule_names<'a>(cr: &'a ContentRouting) -> (r: Vec<&'a str>)
    ensures
        texts(r@) == rule_names(cr),
{
    let mut out: Vec<&'a str> = Vec::new();
    let mut i: usize = 0;
    while i < cr.rules.len()
        invariant
            i <= cr.rules@.len(),
            out@.len() == i,
            forall|k: int| 0 <= k < i ==> (#[trigger] out@[k])@ == cr.rules@[k].name@,
        decreases cr.rules.len() - i,
    {
        out.push(cr.rules[i].name.as_str());
        i += 1;
    }
    proof {
        assert(texts(out@) =~= rule_names(cr));
    }
    out
}


fn quoted(before: &str, name: &str, after: &str) -> (r: Option<String>)
    ensures
        text_of(r) == Some(before@ + name@ + after@),
{
    Some(join3(before, name, after))
}

fn check_asp(c: &Config, a: &ApplicationServer, k: usize) -> (r: Option<String>)
    requires
        k < a.asps@.len(),
    ensures
        text_of(r) == asp_fault(c, a, k as int),
{
    match find_adaptation(&c.associations, a.asps[k].as_str()) {
        None => Some(
            join5(
                "application_server `",
                a.name.as_str(),
                "` references unknown association `",
                a.asps[k].as_str(),
                "`",
            ),
        ),
        Some(Adaptation::M3ua) => None,
        Some(other) => Some(
            join5(
                "application_server `",
                a.name.as_str(),
                "` asp `",
                a.asps[k].as_str(),
                "` is a ",
            ).concat(adaptation_name(other)).concat(" association, an AS is served by m3ua ASPs"),
        ),
    }
}

fn check_asps(c: &Config, a: &ApplicationServer) -> (r: Option<String>)
    ensures
        text_of(r) == first_fault(asp_faults(c, a), 0, a.asps@.len() as int),
{
    let mut k: usize = 0;
    while k < a.asps.len()
        invariant
            k <= a.asps@.len(),
            first_fault(asp_faults(c, a), 0, a.asps@.len() as int) == first_fault(
                asp_faults(c, a),
                k as int,
                a.asps@.len() as int,
            ),
        decreases a.asps.len() - k,
    {
        proof {
            assert(asp_faults(c, a)(k as int) == asp_fault(c, a, k as int));
        }
        let m = check_asp(c, a, k);
        if m.is_some() {
            return m;
        }
        k += 1;
    }
    None
}

fn check_servers(c: &Config, t: &Tenant) -> (r: Option<String>)
    ensures
        text_of(r) == first_fault(server_faults(c, t), 0, t.application_servers@.len() as int),
{
    let names = list_server_names(t);
    let mut i: usize = 0;
    while i < t.application_servers.len()
        invariant
            i <= t.application_servers@.len(),
            texts(names@) == server_names(t),
            first_fault(server_faults(c, t), 0, t.application_servers@.len() as int)
                == first_fault(server_faults(c, t), i as int, t.application_servers@.len() as int),
        decreases t.application_servers.len() - i,
    {
        let a = &t.application_servers[i];
        proof {
            assert(server_faults(c, t)(i as int) == server_fault(c, t, i as int));
            assert(names@.len() == texts(names@).len());
        }
        if seen_before(&names, i) {
            return quoted("duplicate route destination `", a.name.as_str(), "`");
        }
        if a.asps.len() == 0 {
            return quoted("application_server `", a.name.as_str(), "` has no asps");
        }
        let m = check_asps(c, a);
        if m.is_some() {
            return m;
        }
        i += 1;
    }
    None
}

fn check_link(c: &Config, t: &Tenant, l: &Linkset, k: usize) -> (r: Option<String>)
    requires
        k < l.links@.len(),
    ensures
        text_of(r) == link_fault(c, t, l, k as int),
{
    let assoc = l.links[k].assoc.as_str();
    match find_adaptation(&c.associations, assoc) {
        None => Some(
            join5("linkset `", l.name.as_str(), "` references unknown association `", assoc, "`"),
        ),
        Some(Adaptation::M2pa) => match find_adjacent(&c.associations, assoc) {
            Some(pc) => match pc.resolve(t.variant) {
                Ok(_) => None,
                Err(e) => Some(
                    join5("linkset `", l.name.as_str(), "` link `", assoc, "` adjacent_pc: ").concat(
                        e.to_string().as_str(),
                    ),
                ),
            },
            None => None,
        },
        Some(other) => Some(
            join5("linkset `", l.name.as_str(), "` link `", assoc, "` is a ").concat(
                adaptation_name(other),
            ).concat(" association, a linkset carries m2pa links"),
        ),
    }
}

fn check_links(c: &Config, t: &Tenant, l: &Linkset) -> (r: Option<String>)
    ensures
        text_of(r) == first_fault(link_faults(c, t, l), 0, l.links@.len() as int),
{
    let mut k: usize = 0;
    while k < l.links.len()
        invariant
            k <= l.links@.len(),
            first_fault(link_faults(c, t, l), 0, l.links@.len() as int) == first_fault(
                link_faults(c, t, l),
                k as int,
                l.links@.len() as int,
            ),
        decreases l.links.len() - k,
    {
        proof {
            assert(link_faults(c, t, l)(k as int) == link_fault(c, t, l, k as int));
        }
        let m = check_link(c, t, l, k);
        if m.is_some() {
            return m;
        }
        k += 1;
    }
    None
}

fn check_linksets(c: &Config, t: &Tenant) -> (r: Option<String>)
    ensures
        text_of(r) == first_fault(linkset_faults(c, t), 0, t.linksets@.len() as int),
{
    let servers = list_server_names(t);
    let names = list_linkset_names(t);
    let mut i: usize = 0;
    while i < t.linksets.len()
        invariant
            i <= t.linksets@.len(),
            texts(servers@) == server_names(t),
            texts(names@) == linkset_names(t),
            first_fault(linkset_faults(c, t), 0, t.linksets@.len() as int) == first_fault(
                linkset_faults(c, t),
                i as int,
                t.linksets@.len() as int,
            ),
        decreases t.linksets.len() - i,
    {
        let l = &t.linksets[i];
        proof {
            assert(linkset_faults(c, t)(i as int) == linkset_fault(c, t, i as int));
            assert(names@.len() == texts(names@).len());
        }
        if contains_name(&servers, l.name.as_str()) {
            return quoted("collides with application_server `", l.name.as_str(), "`");
        }
        if seen_before(&names, i) {
            return quoted("duplicate route destination `", l.name.as_str(), "`");
        }
        if l.links.len() == 0 {
            return quoted("linkset `", l.name.as_str(), "` has no links");
        }
        let m = check_links(c, t, l);
        if m.is_some() {
            return m;
        }
        i += 1;
    }
    None
}

fn check_route(
    t: &Tenant,
    i: usize,
    servers: &Vec<&str>,
    linksets: &Vec<&str>,
) -> (r: Option<String>)
    requires
        i < t.mtp3_routes@.len(),
        texts(servers@) == server_names(t),
        texts(linksets@) == linkset_names(t),
    ensures
        text_of(r) == route_fault(t, i as int),
{
    let r = &t.mtp3_routes[i];
    match r.dpc.resolve(t.variant) {
        Err(e) => {
            return Some(join2("mtp3_route dpc: ", e.to_string().as_str()));
        },
        Ok(_) => {},
    }
    let to = join2("mtp3_route to ", decimal_of(r.dpc.0 as u64).as_str());
    match (&r.as_, &r.linkset) {
        (Some(a), None) => {
            if contains_name(servers, a.as_str()) {
                None
            } else {
                Some(
                    to.concat(" references unknown application_server `").concat(a.as_str()).concat(
                        "`",
                    ),
                )
            }
        },
        (None, Some(l)) => {
            if contains_name(linksets, l.as_str()) {
                None
            } else {
                Some(to.concat(" references unknown linkset `").concat(l.as_str()).concat("`"))
            }
        },
        (Some(_), Some(_)) => Some(to.concat(" sets both `as:` and `linkset:` (pick one)")),
        (None, None) => Some(to.concat(" sets neither `as:` nor `linkset:`")),
    }
}

fn check_routes(t: &Tenant) -> (r: Option<String>)
    ensures
        text_of(r) == first_fault(route_faults(t), 0, t.mtp3_routes@.len() as int),
{
    let servers = list_server_names(t);
    let linksets = list_linkset_names(t);
    let mut i: usize = 0;
    while i < t.mtp3_routes.len()
        invariant
            i <= t.mtp3_routes@.len(),
            texts(servers@) == server_names(t),
            texts(linksets@) == linkset_names(t),
            first_fault(route_faults(t), 0, t.mtp3_routes@.len() as int) == first_fault(
                route_faults(t),
                i as int,
                t.mtp3_routes@.len() as int,
            ),
        decreases t.mtp3_routes.len() - i,
    {
        proof {
            assert(route_faults(t)(i as int) == route_fault(t, i as int));
        }
        let m = check_route(t, i, &servers, &linksets);
        if m.is_some() {
            return m;
        }
        i += 1;
    }
    None
}

fn check_members(t: &Tenant, g: &GttGroup) -> (r: Option<String>)
    ensures
        text_of(r) == first_fault(member_faults(t, g), 0, g.members@.len() as int),
{
    let mut k: usize = 0;
    while k < g.members.len()
        invariant
            k <= g.members@.len(),
            first_fault(member_faults(t, g), 0, g.members@.len() as int) == first_fault(
                member_faults(t, g),
                k as int,
                g.members@.len() as int,
            ),
        decreases g.members.len() - k,
    {
        proof {
            assert(member_faults(t, g)(k as int) == member_fault(t, g, k as int));
        }
        match g.members[k].dpc.resolve(t.variant) {
            Ok(_) => {},
            Err(e) => {
                return Some(
                    join3("gtt_group `", g.name.as_str(), "` member dpc: ").concat(
                        e.to_string().as_str(),
                    ),
                );
            },
        }
        k += 1;
    }
    None
}

fn check_groups(t: &Tenant) -> (r: Option<String>)
    ensures
        text_of(r) == first_fault(group_faults(t), 0, t.sccp.gtt_groups@.len() as int),
{
    let names = list_group_names(t);
    let mut i: usize = 0;
    while i < t.sccp.gtt_groups.len()
        invariant
            i <= t.sccp.gtt_groups@.len(),
            texts(names@) == group_names(t),
            first_fault(group_faults(t), 0, t.sccp.gtt_groups@.len() as int) == first_fault(
                group_faults(t),
                i as int,
                t.sccp.gtt_groups@.len() as int,
            ),
        decreases t.sccp.gtt_groups.len() - i,
    {
        let g = &t.sccp.gtt_groups[i];
        proof {
            assert(group_faults(t)(i as int) == group_fault(t, i as int));
            assert(names@.len() == texts(names@).len());
        }
        if seen_before(&names, i) {
            return quoted("duplicate gtt_group `", g.name.as_str(), "`");
        }
        if g.members.len() == 0 {
            return quoted("gtt_group `", g.name.as_str(), "` has no members");
        }
        let m = check_members(t, g);
        if m.is_some() {
            return m;
        }
        i += 1;
    }
    None
}

fn count_destinations(x: &RouteTarget) -> (r: u8)
    ensures
        r == destinations_named(x),
{
    let mut n: u8 = 0;
    if x.dpc.is_some() && x.tenant.is_none() {
        n += 1;
    }
    if x.group.is_some() {
        n += 1;
    }
    match x.local {
        Some(b) => {
            if b {
                n += 1;
            }
        },
        None => {},
    }
    if x.tenant.is_some() {
        n += 1;
    }
    n
}

impl Config {
    /// Checks a route target: it names exactly one of a point code, a group,
    /// local termination or a tenant, and what it names resolves. The error is
    /// the first of these that fails.
    pub fn validate_target(&self, x: &RouteTarget, t: &Tenant) -> (r: Option<Error>)
        requires
            self.tenants.wf(),
        ensures
            fault_of(r) == target_fault(self, t, x),
    {
        let groups = list_group_names(t);
        let n: u8 = count_destinations(x);
        if n == 0 {
            return Some(Error::validation("route target names nothing".to_owned()));
        }
        if n > 1 {
            return Some(
                Error::validation(
                    "route target names more than one of dpc/group/local/tenant".to_owned(),
                ),
            );
        }
        match x.dpc {
            Some(dpc) => {
                match dpc.resolve(t.variant) {
                    Ok(_) => {},
                    Err(e) => {
                        return Some(Error::PointCode(e));
                    },
                }
            },
            None => {},
        }
        match &x.group {
            Some(g) => {
                if !contains_name(&groups, g.as_str()) {
                    return Some(
                        Error::validation(join3("unknown gtt_group `", g.as_str(), "`")),
                    );
                }
            },
            None => {},
        }
        match &x.tenant {
            Some(n) => {
                if !self.tenants.holds(n.as_str()) {
                    return Some(Error::validation(join3("unknown tenant `", n.as_str(), "`")));
                }
            },
            None => {},
        }
        None
    }

    fn check_gtt(&self, t: &Tenant) -> (r: Option<String>)
        requires
            self.tenants.wf(),
        ensures
            text_of(r) == first_fault(gtt_faults(self, t), 0, t.sccp.gtt@.len() as int),
    {
        let mut i: usize = 0;
        while i < t.sccp.gtt.len()
            invariant
                self.tenants.wf(),
                i <= t.sccp.gtt@.len(),
                first_fault(gtt_faults(self, t), 0, t.sccp.gtt@.len() as int) == first_fault(
                    gtt_faults(self, t),
                    i as int,
                    t.sccp.gtt@.len() as int,
                ),
            decreases t.sccp.gtt.len() - i,
        {
            proof {
                assert(gtt_faults(self, t)(i as int) == gtt_fault(self, t, i as int));
            }
            match self.validate_target(&t.sccp.gtt[i].to, t) {
                Some(e) => {
                    return Some(join2("gtt rule: ", e.to_string().as_str()));
                },
                None => {},
            }
            i += 1;
        }
        None
    }
}

fn check_table_ref(
    cr: &ContentRouting,
    rule: &ContentRule,
    field: &str,
    table: &Option<String>,
    tables: &Vec<&str>,
) -> (r: Option<String>)
    requires
        texts(tables@) == address_table_names(cr),
    ensures
        text_of(r) == table_ref_fault(cr, rule, field@, *table),
{
    match table {
        Some(x) => {
            if contains_name(tables, x.as_str()) {
                None
            } else {
                Some(
                    join5(
                        "content rule `",
                        rule.name.as_str(),
                        "` ",
                        field,
                        " references unknown address_table `",
                    ).concat(x.as_str()).concat("`"),
                )
            }
        },
        None => None,
    }
}

fn protocol_name(p: ContentProtocol) -> (r: &'static str)
    ensures
        r@ == protocol_text(p),
{
    match p {
        ContentProtocol::GsmMap => "gsm-map",
        ContentProtocol::GsmCap => "gsm-cap",
    }
}

fn check_operations(p: ContentProtocol, rule: &ContentRule) -> (r: Option<String>)
    ensures
        text_of(r) == rule_operations_fault(p, rule),
{
    match &rule.match_.operation {
        Some(ops) => {
            let list = ops.as_slice();
            let mut k: usize = 0;
            while k < list.len()
                invariant
                    k <= list@.len(),
                    rule.match_.operation == Some(*ops),
                    list@.map_values(|s: &str| s@) == ops.values(),
                    first_fault(
                        operation_faults(p, rule, ops.values()),
                        0,
                        ops.values().len() as int,
                    ) == first_fault(
                        operation_faults(p, rule, ops.values()),
                        k as int,
                        ops.values().len() as int,
                    ),
                decreases list.len() - k,
            {
                proof {
                    assert(operation_faults(p, rule, ops.values())(k as int) == operation_fault(
                        p,
                        rule,
                        ops.values(),
                        k as int,
                    ));
                    assert(list@.map_values(|s: &str| s@)[k as int] == list@[k as int]@);
                }
                match Operation::from_kebab(list[k]) {
                    Some(op) => {
                        if op.is_cap() != (p == ContentProtocol::GsmCap) {
                            return Some(
                                join5(
                                    "content rule `",
                                    rule.name.as_str(),
                                    "` operation `",
                                    list[k],
                                    "` is not a ",
                                ).concat(protocol_name(p)).concat(" operation"),
                            );
                        }
                    },
                    None => {
                        return Some(
                            join5(
                                "content rule `",
                                rule.name.as_str(),
                                "` names unknown operation `",
                                list[k],
                                "`",
                            ),
                        );
                    },
                }
                k += 1;
            }
            proof {
                assert(list@.len() == ops.values().len());
            }
            None
        },
        None => None,
    }
}

impl Config {
    fn check_rule(
        &self,
        t: &Tenant,
        cr: &ContentRouting,
        i: usize,
        names: &Vec<&str>,
        addresses: &Vec<&str>,
        imsis: &Vec<&str>,
    ) -> (r: Option<String>)
        requires
            self.tenants.wf(),
            i < cr.rules@.len(),
            texts(names@) == rule_names(cr),
            texts(addresses@) == address_table_names(cr),
            texts(imsis@) == imsi_table_names(cr),
        ensures
            text_of(r) == rule_fault(self, t, cr, i as int),
    {
        let rule = &cr.rules[i];
        proof {
            assert(names@.len() == texts(names@).len());
        }
        if seen_before(names, i) {
            return quoted("duplicate content rule `", rule.name.as_str(), "`");
        }
        match &rule.match_.imsi_in {
            Some(x) => {
                if !contains_name(imsis, x.as_str()) {
                    return Some(
                        join5(
                            "content rule `",
                            rule.name.as_str(),
                            "` matches unknown imsi_table `",
                            x.as_str(),
                            "`",
                        ),
                    );
                }
            },
            None => {},
        }
        let m = check_table_ref(cr, rule, "cdpa_gt_in", &rule.match_.cdpa_gt_in, addresses);
        if m.is_some() {
            return m;
        }
        let m = check_table_ref(cr, rule, "cgpa_gt_in", &rule.match_.cgpa_gt_in, addresses);
        if m.is_some() {
            return m;
        }
        let m = check_operations(cr.protocol, rule);
        if m.is_some() {
            return m;
        }
        match &rule.action.route {
            Some(x) => {
                match self.validate_target(x, t) {
                    Some(e) => Some(
                        join3("content rule `", rule.name.as_str(), "`: ").concat(
                            e.to_string().as_str(),
                        ),
                    ),
                    None => None,
                }
            },
            None => None,
        }
    }

    fn check_content(&self, t: &Tenant, cr: &ContentRouting) -> (r: Option<String>)
        requires
            self.tenants.wf(),
        ensures
            text_of(r) == content_fault(self, t, cr),
    {
        let addresses = list_address_tables(cr);
        let imsis = list_imsi_tables(cr);
        let names = list_rule_names(cr);
        let mut i: usize = 0;
        while i < cr.address_tables.len()
            invariant
                i <= cr.address_tables@.len(),
                texts(addresses@) == address_table_names(cr),
                first_fault(address_table_faults(cr), 0, cr.address_tables@.len() as int)
                    == first_fault(
                    address_table_faults(cr),
                    i as int,
                    cr.address_tables@.len() as int,
                ),
            decreases cr.address_tables.len() - i,
        {
            proof {
                assert(address_table_faults(cr)(i as int) == address_table_fault(cr, i as int));
                assert(addresses@.len() == texts(addresses@).len());
            }
            if seen_before(&addresses, i) {
                return quoted("duplicate address_table `", cr.address_tables[i].name.as_str(), "`");
            }
            i += 1;
        }
        let mut i: usize = 0;
        while i < cr.imsi_tables.len()
            invariant
                i <= cr.imsi_tables@.len(),
                first_fault(address_table_faults(cr), 0, cr.address_tables@.len() as int) is None,
                texts(imsis@) == imsi_table_names(cr),
                first_fault(imsi_table_faults(cr), 0, cr.imsi_tables@.len() as int) == first_fault(
                    imsi_table_faults(cr),
                    i as int,
                    cr.imsi_tables@.len() as int,
                ),
            decreases cr.imsi_tables.len() - i,
        {
            proof {
                assert(imsi_table_faults(cr)(i as int) == imsi_table_fault(cr, i as int));
                assert(imsis@.len() == texts(imsis@).len());
            }
            if seen_before(&imsis, i) {
                return quoted("duplicate imsi_table `", cr.imsi_tables[i].name.as_str(), "`");
            }
            i += 1;
        }
        let mut i: usize = 0;
        while i < cr.rules.len()
            invariant
                self.tenants.wf(),
                i <= cr.rules@.len(),
                first_fault(address_table_faults(cr), 0, cr.address_tables@.len() as int) is None,
                first_fault(imsi_table_faults(cr), 0, cr.imsi_tables@.len() as int) is None,
                texts(names@) == rule_names(cr),
                texts(addresses@) == address_table_names(cr),
                texts(imsis@) == imsi_table_names(cr),
                first_fault(rule_faults(self, t, cr), 0, cr.rules@.len() as int) == first_fault(
                    rule_faults(self, t, cr),
                    i as int,
                    cr.rules@.len() as int,
                ),
            decreases cr.rules.len() - i,
        {
            proof {
                assert(rule_faults(self, t, cr)(i as int) == rule_fault(self, t, cr, i as int));
            }
            let m = self.check_rule(t, cr, i, &names, &addresses, &imsis);
            if m.is_some() {
                return m;
            }
            i += 1;
        }
        None
    }

    /// Checks one tenant: its point code fits its variant, its names are unique,
    /// and every reference in its tables resolves. The message is the first
    /// problem found.
    pub fn validate_tenant(&self, t: &Tenant) -> (r: Option<String>)
        requires
            self.tenants.wf(),
        ensures
            text_of(r) == tenant_fault(self, t),
    {
        match t.resolved_point_code() {
            Ok(_) => {},
            Err(e) => {
                return Some(join2("point_code: ", e.to_string().as_str()));
            },
        }
        let m = check_servers(self, t);
        if m.is_some() {
            return m;
        }
        let m = check_linksets(self, t);
        if m.is_some() {
            return m;
        }
        let m = check_routes(t);
        if m.is_some() {
            return m;
        }
        let m = check_groups(t);
        if m.is_some() {
            return m;
        }
        let m = self.check_gtt(t);
        if m.is_some() {
            return m;
        }
        match &t.content_routing {
            Some(cr) => self.check_content(t, cr),
            None => None,
        }
    }

    fn check_associations(&self) -> (r: Option<Error>)
        ensures
            fault_of(r) == first_fault(association_faults(self), 0, self.associations@.len() as int),
    {
        let ids = list_association_ids(self);
        let mut i: usize = 0;
        while i < self.associations.len()
            invariant
                i <= self.associations@.len(),
                texts(ids@) == association_ids(self),
                first_fault(association_faults(self), 0, self.associations@.len() as int)
                    == first_fault(
                    association_faults(self),
                    i as int,
                    self.associations@.len() as int,
                ),
            decreases self.associations.len() - i,
        {
            let a = &self.associations[i];
            proof {
                assert(association_faults(self)(i as int) == association_fault(self, i as int));
                assert(ids@.len() == texts(ids@).len());
            }
            if seen_before(&ids, i) {
                return Some(
                    Error::validation(join3("duplicate association id `", a.id.as_str(), "`")),
                );
            }
            if a.addrs.len() == 0 {
                return Some(
                    Error::validation(join3("association `", a.id.as_str(), "` has no addresses")),
                );
            }
            match a.adjacent_pc {
                Some(pc) => {
                    match pc.resolve(Variant::Ansi) {
                        Ok(_) => {},
                        Err(e) => {
                            return Some(Error::PointCode(e));
                        },
                    }
                },
                None => {},
            }
            i += 1;
        }
        None
    }

    /// Checks the whole configuration. It succeeds exactly when nothing is wrong
    /// with any association or tenant; otherwise the error is the first problem,
    /// associations first, then the tenants in order of name.
    pub fn validate(&self) -> (r: Result<()>)
        requires
            self.tenants.wf(),
        ensures
            match config_fault(self) {
                Some(f) => r matches Err(e) && e@ == f,
                None => r is Ok,
            },
    {
        match self.check_associations() {
            Some(e) => {
                return Err(e);
            },
            None => {},
        }
        let mut i: usize = 0;
        while i < self.tenants.len()
            invariant
                self.tenants.wf(),
                i <= self.tenants.size(),
                config_fault(self) == first_fault(
                    named_tenant_faults(self),
                    i as int,
                    self.tenants.size() as int,
                ),
            decreases self.tenants.size() - i,
        {
            proof {
                assert(named_tenant_faults(self)(i as int) == named_tenant_fault(self, i as int));
            }
            match self.validate_tenant(self.tenants.value(i)) {
                Some(m) => {
                    return Err(
                        Error::validation(
                            join3("tenant `", self.tenants.key(i).as_str(), "`: ").concat(
                                m.as_str(),
                            ),
                        ),
                    );
                },
                None => {},
            }
            i += 1;
        }
        Ok(())
    }

    /// Normalises and checks a file. It succeeds exactly when the file has a normal
    /// form and nothing is wrong with that.
    pub fn parse(raw: RawFile) -> (r: Result<Config>)
        requires
            raw.tenants matches Some(map) ==> map.wf(),
        ensures
            match r {
                Ok(c) => {
                    &&& raw.shape_fault() is None
                    &&& raw.normalises_to(c)
                    &&& config_fault(&c) is None
                },
                Err(e) => match raw.shape_fault() {
                    Some(text) => e@ == Fault::Validation(text),
                    None => exists|c: Config| #[trigger]
                        raw.normalises_to(c) && config_fault(&c) == Some(e@),
                },
            },
    {
        let config = match Config::from_raw(raw) {
            Ok(c) => c,
            Err(e) => {
                return Err(e);
            },
        };
        match config.validate() {
            Ok(()) => Ok(config),
            Err(e) => Err(e),
        }
    }
}

} // verus!
