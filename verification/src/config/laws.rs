//! What a configuration that passes validation is: unique names, point codes
//! that fit, references that resolve.
use crate::config::validate::{
    adaptation_of, adjacent_of, address_table_names, asp_faults, association_faults, association_ids,
    address_table_faults, config_fault, content_fault, destinations_named, first_fault, group_fault,
    group_faults, group_names, gtt_faults, imsi_table_faults, imsi_table_names, link_faults,
    linkset_fault, linkset_faults, linkset_names, member_faults, named_tenant_faults, of_protocol,
    operation_faults, repeated, route_faults, rule_fault, rule_faults, rule_names, server_fault,
    server_faults, server_names, tenant_fault,
};
use crate::config::{
    Adaptation, ApplicationServer, Config, ContentRouting, ContentRule, GttGroup, Linkset,
    Mtp3Route, RouteTarget, Tenant,
};
use crate::content::operation::operation_named;
use crate::point_code::{largest, RawPc, Variant};
use vstd::prelude::*;

verus! {

/// No two names are equal.
pub open spec fn distinct(names: Seq<Seq<char>>) -> bool {
    forall|i: int, j: int| 0 <= i < j < names.len() ==> names[i] != names[j]
}

/// An optional point code fits the variant where it is given.
pub open spec fn fits(pc: Option<RawPc>, variant: Variant) -> bool {
    pc matches Some(raw) ==> raw.0 <= largest(variant)
}

/// Every ASP of the server is a known M3UA association, and there is one.
pub open spec fn server_resolves(c: &Config, a: ApplicationServer) -> bool {
    &&& a.asps@.len() > 0
    &&& forall|k: int|
        0 <= k < a.asps@.len() ==> adaptation_of(c.associations@, #[trigger] a.asps@[k]@) == Some(
            Adaptation::M3ua,
        )
}

/// Every link of the linkset is a known M2PA association whose adjacent point code
/// fits, and there is one.
pub open spec fn linkset_resolves(c: &Config, t: &Tenant, l: Linkset) -> bool {
    &&& l.links@.len() > 0
    &&& forall|k: int|
        0 <= k < l.links@.len() ==> adaptation_of(c.associations@, (#[trigger] l.links@[k]).assoc@)
            == Some(Adaptation::M2pa) && fits(
            adjacent_of(c.associations@, l.links@[k].assoc@),
            t.variant,
        )
}

/// The route's point code fits, and it names exactly one known destination.
pub open spec fn route_resolves(t: &Tenant, r: Mtp3Route) -> bool {
    &&& r.dpc.0 <= largest(t.variant)
    &&& (r.as_ is Some) != (r.linkset is Some)
    &&& r.as_ matches Some(a) ==> server_names(t).contains(a@)
    &&& r.linkset matches Some(l) ==> linkset_names(t).contains(l@)
}

/// The group has members, all with point codes that fit.
pub open spec fn group_resolves(t: &Tenant, g: GttGroup) -> bool {
    &&& g.members@.len() > 0
    &&& forall|k: int|
        0 <= k < g.members@.len() ==> (#[trigger] g.members@[k]).dpc.0 <= largest(t.variant)
}

/// The target names exactly one destination, and that resolves.
pub open spec fn target_resolves(c: &Config, t: &Tenant, x: RouteTarget) -> bool {
    &&& destinations_named(&x) == 1
    &&& fits(x.dpc, t.variant)
    &&& x.group matches Some(g) ==> group_names(t).contains(g@)
    &&& x.tenant matches Some(n) ==> c.tenants@.contains_key(n@)
}

/// The tables, operations and target a content rule names all exist, and the
/// operations are of the declared protocol.
pub open spec fn rule_resolves(c: &Config, t: &Tenant, cr: &ContentRouting, r: ContentRule) -> bool {
    &&& r.match_.imsi_in matches Some(x) ==> imsi_table_names(cr).contains(x@)
    &&& r.match_.cdpa_gt_in matches Some(x) ==> address_table_names(cr).contains(x@)
    &&& r.match_.cgpa_gt_in matches Some(x) ==> address_table_names(cr).contains(x@)
    &&& r.match_.operation matches Some(ops) ==> forall|k: int|
        0 <= k < ops.values().len() ==> (operation_named(#[trigger] ops.values()[k]) matches Some(
            op,
        ) && of_protocol(op, cr.protocol))
    &&& r.action.route matches Some(x) ==> target_resolves(c, t, x)
}

/// The content block's names are unique and its rules resolve.
pub open spec fn content_resolves(c: &Config, t: &Tenant, cr: &ContentRouting) -> bool {
    &&& distinct(address_table_names(cr))
    &&& distinct(imsi_table_names(cr))
    &&& distinct(rule_names(cr))
    &&& forall|i: int| 0 <= i < cr.rules@.len() ==> rule_resolves(c, t, cr, #[trigger] cr.rules@[i])
}

/// A tenant in order: its point code fits its variant, its names are unique, and
/// every reference resolves.
pub open spec fn tenant_resolves(c: &Config, t: &Tenant) -> bool {
    &&& t.point_code.0 <= largest(t.variant)
    &&& distinct(server_names(t))
    &&& distinct(linkset_names(t))
    &&& forall|i: int|
        0 <= i < t.linksets@.len() ==> !server_names(t).contains(
            (#[trigger] t.linksets@[i]).name@,
        )
    &&& forall|i: int|
        0 <= i < t.application_servers@.len() ==> server_resolves(
            c,
            #[trigger] t.application_servers@[i],
        )
    &&& forall|i: int|
        0 <= i < t.linksets@.len() ==> linkset_resolves(c, t, #[trigger] t.linksets@[i])
    &&& forall|i: int|
        0 <= i < t.mtp3_routes@.len() ==> route_resolves(t, #[trigger] t.mtp3_routes@[i])
    &&& distinct(group_names(t))
    &&& forall|i: int|
        0 <= i < t.sccp.gtt_groups@.len() ==> group_resolves(t, #[trigger] t.sccp.gtt_groups@[i])
    &&& forall|i: int|
        0 <= i < t.sccp.gtt@.len() ==> target_resolves(c, t, (#[trigger] t.sccp.gtt@[i]).to)
    &&& t.content_routing matches Some(cr) ==> content_resolves(c, t, &cr)
}

/// A configuration in order: unique association ids, each with an address, and
/// every tenant in order.
pub open spec fn config_resolves(c: &Config) -> bool {
    &&& distinct(association_ids(c))
    &&& forall|i: int|
        0 <= i < c.associations@.len() ==> (#[trigger] c.associations@[i]).addrs@.len() > 0
            && fits(c.associations@[i].adjacent_pc, Variant::Ansi)
    &&& forall|i: int|
        0 <= i < c.tenants.size() ==> tenant_resolves(c, &#[trigger] c.tenants.value_at(i))
}

/// There is no first fault exactly when there is no fault.
pub proof fn first_fault_none<E>(f: spec_fn(int) -> Option<E>, from: int, n: int)
    ensures
        first_fault(f, from, n) is None <==> forall|i: int| from <= i < n ==> #[trigger] f(i) is None,
    decreases n - from,
{
    if from < n {
        first_fault_none(f, from + 1, n);
        if f(from) is None && first_fault(f, from + 1, n) is None {
            assert forall|i: int| from <= i < n implies #[trigger] f(i) is None by {}
        }
    }
}

/// No name is repeated exactly when the names are distinct.
proof fn repeated_distinct(names: Seq<Seq<char>>)
    ensures
        distinct(names) <==> forall|i: int| 0 <= i < names.len() ==> !#[trigger] repeated(names, i),
{
    if forall|i: int| 0 <= i < names.len() ==> !#[trigger] repeated(names, i) {
        assert forall|i: int, j: int| 0 <= i < j < names.len() implies names[i] != names[j] by {
            assert(!repeated(names, j));
        }
    }
}

proof fn server_ok(c: &Config, t: &Tenant, i: int)
    requires
        0 <= i < t.application_servers@.len(),
    ensures
        server_fault(c, t, i) is None <==> !repeated(server_names(t), i) && server_resolves(
            c,
            t.application_servers@[i],
        ),
{
    let a = t.application_servers@[i];
    first_fault_none(asp_faults(c, &a), 0, a.asps@.len() as int);
    assert forall|k: int| 0 <= k < a.asps@.len() implies ((#[trigger] asp_faults(c, &a)(k)) is None
        <==> adaptation_of(c.associations@, a.asps@[k]@) == Some(Adaptation::M3ua)) by {}
    if server_fault(c, t, i) is None {
        assert forall|k: int| 0 <= k < a.asps@.len() implies adaptation_of(
            c.associations@,
            #[trigger] a.asps@[k]@,
        ) == Some(Adaptation::M3ua) by {
            assert(asp_faults(c, &a)(k) is None);
        }
    }
}

proof fn linkset_ok(c: &Config, t: &Tenant, i: int)
    requires
        0 <= i < t.linksets@.len(),
    ensures
        linkset_fault(c, t, i) is None <==> !repeated(linkset_names(t), i)
            && !server_names(t).contains(t.linksets@[i].name@) && linkset_resolves(
            c,
            t,
            t.linksets@[i],
        ),
{
    let l = t.linksets@[i];
    first_fault_none(link_faults(c, t, &l), 0, l.links@.len() as int);
    assert forall|k: int| 0 <= k < l.links@.len() implies ((#[trigger] link_faults(c, t, &l)(
        k,
    )) is None <==> adaptation_of(c.associations@, l.links@[k].assoc@) == Some(Adaptation::M2pa)
        && fits(adjacent_of(c.associations@, l.links@[k].assoc@), t.variant)) by {}
    if linkset_fault(c, t, i) is None {
        assert forall|k: int| 0 <= k < l.links@.len() implies adaptation_of(
            c.associations@,
            (#[trigger] l.links@[k]).assoc@,
        ) == Some(Adaptation::M2pa) && fits(
            adjacent_of(c.associations@, l.links@[k].assoc@),
            t.variant,
        ) by {
            assert(link_faults(c, t, &l)(k) is None);
        }
    }
}

proof fn group_ok(t: &Tenant, i: int)
    requires
        0 <= i < t.sccp.gtt_groups@.len(),
    ensures
        group_fault(t, i) is None <==> !repeated(group_names(t), i) && group_resolves(
            t,
            t.sccp.gtt_groups@[i],
        ),
{
    let g = t.sccp.gtt_groups@[i];
    first_fault_none(member_faults(t, &g), 0, g.members@.len() as int);
    assert forall|k: int| 0 <= k < g.members@.len() implies ((#[trigger] member_faults(t, &g)(
        k,
    )) is None <==> g.members@[k].dpc.0 <= largest(t.variant)) by {}
    if group_fault(t, i) is None {
        assert forall|k: int| 0 <= k < g.members@.len() implies (#[trigger] g.members@[k]).dpc.0
            <= largest(t.variant) by {
            assert(member_faults(t, &g)(k) is None);
        }
    }
}

proof fn rule_ok(c: &Config, t: &Tenant, cr: &ContentRouting, i: int)
    requires
        0 <= i < cr.rules@.len(),
    ensures
        rule_fault(c, t, cr, i) is None <==> !repeated(rule_names(cr), i) && rule_resolves(
            c,
            t,
            cr,
            cr.rules@[i],
        ),
{
    let r = cr.rules@[i];
    if let Some(ops) = r.match_.operation {
        let f = operation_faults(cr.protocol, &r, ops.values());
        first_fault_none(f, 0, ops.values().len() as int);
        assert forall|k: int| 0 <= k < ops.values().len() implies ((#[trigger] f(k)) is None
            <==> (operation_named(ops.values()[k]) matches Some(op) && of_protocol(
            op,
            cr.protocol,
        ))) by {}
        if first_fault(f, 0, ops.values().len() as int) is None {
            assert forall|k: int| 0 <= k < ops.values().len() implies (operation_named(
                #[trigger] ops.values()[k],
            ) matches Some(op) && of_protocol(op, cr.protocol)) by {
                assert(f(k) is None);
            }
        }
    }
}

proof fn content_ok(c: &Config, t: &Tenant, cr: &ContentRouting)
    ensures
        content_fault(c, t, cr) is None <==> content_resolves(c, t, cr),
{
    first_fault_none(address_table_faults(cr), 0, cr.address_tables@.len() as int);
    first_fault_none(imsi_table_faults(cr), 0, cr.imsi_tables@.len() as int);
    first_fault_none(rule_faults(c, t, cr), 0, cr.rules@.len() as int);
    repeated_distinct(address_table_names(cr));
    repeated_distinct(imsi_table_names(cr));
    repeated_distinct(rule_names(cr));
    assert forall|i: int| 0 <= i < cr.rules@.len() implies ((#[trigger] rule_faults(c, t, cr)(
        i,
    )) is None <==> !repeated(rule_names(cr), i) && rule_resolves(c, t, cr, cr.rules@[i])) by {
        rule_ok(c, t, cr, i);
    }
    assert forall|i: int| 0 <= i < cr.address_tables@.len() implies ((#[trigger] address_table_faults(
        cr,
    )(i)) is None <==> !repeated(address_table_names(cr), i)) by {}
    assert forall|i: int| 0 <= i < cr.imsi_tables@.len() implies ((#[trigger] imsi_table_faults(cr)(
        i,
    )) is None <==> !repeated(imsi_table_names(cr), i)) by {}
    if content_fault(c, t, cr) is None {
        assert forall|i: int| 0 <= i < cr.rules@.len() implies rule_resolves(
            c,
            t,
            cr,
            #[trigger] cr.rules@[i],
        ) by {
            assert(rule_faults(c, t, cr)(i) is None);
        }
        assert forall|i: int| 0 <= i < rule_names(cr).len() implies !#[trigger] repeated(
            rule_names(cr),
            i,
        ) by {
            assert(rule_faults(c, t, cr)(i) is None);
        }
        assert forall|i: int| 0 <= i < address_table_names(cr).len() implies !#[trigger] repeated(
            address_table_names(cr),
            i,
        ) by {
            assert(address_table_faults(cr)(i) is None);
        }
        assert forall|i: int| 0 <= i < imsi_table_names(cr).len() implies !#[trigger] repeated(
            imsi_table_names(cr),
            i,
        ) by {
            assert(imsi_table_faults(cr)(i) is None);
        }
    }
}

/// A tenant passes validation exactly when it is in order.
pub proof fn law_tenant_valid(c: &Config, t: &Tenant)
    ensures
        tenant_fault(c, t) is None <==> tenant_resolves(c, t),
{
    let ns = t.application_servers@.len() as int;
    let nl = t.linksets@.len() as int;
    let nr = t.mtp3_routes@.len() as int;
    let ng = t.sccp.gtt_groups@.len() as int;
    let nt = t.sccp.gtt@.len() as int;
    first_fault_none(server_faults(c, t), 0, ns);
    first_fault_none(linkset_faults(c, t), 0, nl);
    first_fault_none(route_faults(t), 0, nr);
    first_fault_none(group_faults(t), 0, ng);
    first_fault_none(gtt_faults(c, t), 0, nt);
    repeated_distinct(server_names(t));
    repeated_distinct(linkset_names(t));
    repeated_distinct(group_names(t));
    if let Some(cr) = t.content_routing {
        content_ok(c, t, &cr);
    }
    assert forall|i: int| 0 <= i < ns implies ((#[trigger] server_faults(c, t)(i)) is None
        <==> !repeated(server_names(t), i) && server_resolves(c, t.application_servers@[i])) by {
        server_ok(c, t, i);
    }
    assert forall|i: int| 0 <= i < nl implies ((#[trigger] linkset_faults(c, t)(i)) is None
        <==> !repeated(linkset_names(t), i) && !server_names(t).contains(t.linksets@[i].name@)
        && linkset_resolves(c, t, t.linksets@[i])) by {
        linkset_ok(c, t, i);
    }
    assert forall|i: int| 0 <= i < nr implies ((#[trigger] route_faults(t)(i)) is None
        <==> route_resolves(t, t.mtp3_routes@[i])) by {}
    assert forall|i: int| 0 <= i < ng implies ((#[trigger] group_faults(t)(i)) is None
        <==> !repeated(group_names(t), i) && group_resolves(t, t.sccp.gtt_groups@[i])) by {
        group_ok(t, i);
    }
    assert forall|i: int| 0 <= i < nt implies ((#[trigger] gtt_faults(c, t)(i)) is None
        <==> target_resolves(c, t, t.sccp.gtt@[i].to)) by {}
    if tenant_fault(c, t) is None {
        assert forall|i: int| 0 <= i < ns implies server_resolves(
            c,
            #[trigger] t.application_servers@[i],
        ) && !repeated(server_names(t), i) by {
            assert(server_faults(c, t)(i) is None);
        }
        assert forall|i: int| 0 <= i < nl implies linkset_resolves(c, t, #[trigger] t.linksets@[i])
            && !repeated(linkset_names(t), i) && !server_names(t).contains(t.linksets@[i].name@) by {
            assert(linkset_faults(c, t)(i) is None);
        }
        assert forall|i: int| 0 <= i < nr implies route_resolves(t, #[trigger] t.mtp3_routes@[i]) by {
            assert(route_faults(t)(i) is None);
        }
        assert forall|i: int| 0 <= i < ng implies group_resolves(t, #[trigger] t.sccp.gtt_groups@[i])
            && !repeated(group_names(t), i) by {
            assert(group_faults(t)(i) is None);
        }
        assert forall|i: int| 0 <= i < nt implies target_resolves(c, t, (#[trigger] t.sccp.gtt@[i]).to) by {
            assert(gtt_faults(c, t)(i) is None);
        }
        assert forall|i: int| 0 <= i < server_names(t).len() implies !#[trigger] repeated(
            server_names(t),
            i,
        ) by {
            assert(server_faults(c, t)(i) is None);
        }
        assert forall|i: int| 0 <= i < linkset_names(t).len() implies !#[trigger] repeated(
            linkset_names(t),
            i,
        ) by {
            assert(linkset_faults(c, t)(i) is None);
        }
        assert forall|i: int| 0 <= i < group_names(t).len() implies !#[trigger] repeated(
            group_names(t),
            i,
        ) by {
            assert(group_faults(t)(i) is None);
        }
    }
}

/// Validation accepts a configuration exactly when it is in order: point codes
/// fit their variant, names are unique, and every reference resolves.
pub proof fn law_config_valid(c: &Config)
    ensures
        config_fault(c) is None <==> config_resolves(c),
{
    let na = c.associations@.len() as int;
    let nt = c.tenants.size() as int;
    first_fault_none(association_faults(c), 0, na);
    first_fault_none(named_tenant_faults(c), 0, nt);
    repeated_distinct(association_ids(c));
    assert forall|i: int| 0 <= i < na implies ((#[trigger] association_faults(c)(i)) is None
        <==> !repeated(association_ids(c), i) && c.associations@[i].addrs@.len() > 0 && fits(
        c.associations@[i].adjacent_pc,
        Variant::Ansi,
    )) by {}
    assert forall|i: int| 0 <= i < nt implies ((#[trigger] named_tenant_faults(c)(i)) is None
        <==> tenant_resolves(c, &c.tenants.value_at(i))) by {
        law_tenant_valid(c, &c.tenants.value_at(i));
    }
    if config_fault(c) is None {
        assert forall|i: int| 0 <= i < na implies (#[trigger] c.associations@[i]).addrs@.len() > 0
            && fits(c.associations@[i].adjacent_pc, Variant::Ansi) by {
            assert(association_faults(c)(i) is None);
        }
        assert forall|i: int| 0 <= i < association_ids(c).len() implies !#[trigger] repeated(
            association_ids(c),
            i,
        ) by {
            assert(association_faults(c)(i) is None);
        }
        assert forall|i: int| 0 <= i < nt implies tenant_resolves(
            c,
            &#[trigger] c.tenants.value_at(i),
        ) by {
            assert(named_tenant_faults(c)(i) is None);
        }
    }
}

} // verus!
