//! Laws of the configuration, stated on its fields.
use crate::config::validate::{
    adaptation_of, adjacent_of, association_fault, association_faults, config_fault,
    destinations_named, first_fault, named_tenant_fault, named_tenant_faults, of_protocol,
};
use crate::config::{
    ni_bits, Association, Config, ContentProtocol, NetworkIndicator, RawFile, RouteTarget,
    DEFAULT_TENANT,
};
use crate::content::operation::Operation;
use crate::error::Fault;
use crate::point_code::{assembled, resolved, PointCode, PointCodeFault, Variant};
use vstd::arithmetic::power2::{lemma2_to64, pow2};
use vstd::prelude::*;
use vstd::string::*;

verus! {

/// A route target names exactly one destination: a tenant, or a group, or local
/// termination, or a point code. A point code beside a tenant belongs to the tenant, and
/// `local: false` names nothing.
pub proof fn law_target_names_one(x: RouteTarget)
    ensures
        destinations_named(&x) == 1 <==> {
            ||| x.tenant is Some && x.group is None && x.local != Some(true)
            ||| x.tenant is None && x.group is Some && x.local != Some(true) && x.dpc is None
            ||| x.tenant is None && x.group is None && x.local == Some(true) && x.dpc is None
            ||| x.tenant is None && x.group is None && x.local != Some(true) && x.dpc is Some
        },
        destinations_named(&x) == 0 <==> x.tenant is None && x.group is None && x.local != Some(
            true,
        ) && x.dpc is None,
{
}

/// An association is found by its identifier, with its own adaptation and neighbour; the
/// last one counts where several share it.
pub proof fn law_association_is_found(assocs: Seq<Association>, i: int)
    requires
        0 <= i < assocs.len(),
        forall|j: int| i < j < assocs.len() ==> (#[trigger] assocs[j]).id@ != assocs[i].id@,
    ensures
        adaptation_of(assocs, assocs[i].id@) == Some(assocs[i].adaptation),
        adjacent_of(assocs, assocs[i].id@) == assocs[i].adjacent_pc,
    decreases assocs.len(),
{
    if i < assocs.len() - 1 {
        assert(assocs[assocs.len() - 1].id@ != assocs[i].id@);
        assert(assocs.drop_last()[i] == assocs[i]);
        law_association_is_found(assocs.drop_last(), i);
    }
}

/// No association is found under an identifier that none has.
pub proof fn law_unknown_association_is_not_found(assocs: Seq<Association>, id: Seq<char>)
    requires
        forall|j: int| 0 <= j < assocs.len() ==> (#[trigger] assocs[j]).id@ != id,
    ensures
        adaptation_of(assocs, id) is None,
        adjacent_of(assocs, id) is None,
    decreases assocs.len(),
{
    if assocs.len() > 0 {
        assert(assocs[assocs.len() - 1].id@ != id);
        let head = assocs.drop_last();
        assert forall|j: int| 0 <= j < head.len() implies (#[trigger] head[j]).id@ != id by {
            assert(assocs[j].id@ != id);
        }
        law_unknown_association_is_not_found(head, id);
    }
}

/// The operations of CAP are the initial detection point and the connect; all others are
/// operations of MAP.
pub proof fn law_operations_by_protocol(op: Operation)
    ensures
        of_protocol(op, ContentProtocol::GsmCap) <==> op == Operation::InitialDp || op
            == Operation::Connect,
        of_protocol(op, ContentProtocol::GsmMap) <==> op != Operation::InitialDp && op
            != Operation::Connect,
{
}

/// The network indicator in two bits.
pub proof fn law_network_indicator_bits(ni: NetworkIndicator)
    ensures
        ni == NetworkIndicator::International <==> ni_bits(ni) == 0,
        ni == NetworkIndicator::InternationalSpare <==> ni_bits(ni) == 1,
        ni == NetworkIndicator::National <==> ni_bits(ni) == 2,
        ni == NetworkIndicator::NationalSpare <==> ni_bits(ni) == 3,
{
}

// ── The shape of a file ─────────────────────────────────────────────────────

/// A file is accepted exactly if it either has a `node:` and no tenants, or has at least
/// one tenant and no routing fields beside them.
pub proof fn law_file_is_flat_or_tenanted(raw: RawFile)
    ensures
        raw.shape_fault() is None <==> {
            ||| raw.tenants is None && raw.node is Some
            ||| {
                &&& raw.tenants is Some
                &&& raw.tenants->Some_0.size() > 0
                &&& raw.application_servers@.len() == 0
                &&& raw.linksets@.len() == 0
                &&& raw.mtp3_routes@.len() == 0
                &&& raw.sccp is None
                &&& raw.content_routing is None
                &&& raw.isup_screening is None
            }
        },
{
}

/// A flat file becomes one tenant, which is what the file says field by field; a file
/// with tenants keeps them. Timers that a file leaves out are 15 seconds for an invoke and
/// 30 seconds for a dialogue, with room for 100 000 dialogues.
pub proof fn law_file_becomes_its_tenants(raw: RawFile, c: Config)
    requires
        raw.normalises_to(c),
    ensures
        c.associations == raw.associations,
        raw.tenants matches Some(map) ==> c.tenants == map,
        raw.tcap matches Some(t) ==> c.tcap == t,
        raw.tcap is None ==> c.tcap.invoke_timer_ms == 15_000 && c.tcap.dialogue_timer_ms == 30_000
            && c.tcap.max_dialogues == 100_000,
        raw.tenants is None ==> {
            let t = c.tenants@[DEFAULT_TENANT@];
            &&& raw.node is Some
            &&& t.point_code == raw.node->Some_0.point_code
            &&& t.variant == raw.node->Some_0.variant
            &&& t.network_indicator == raw.node->Some_0.network_indicator
            &&& t.application_servers == raw.application_servers
            &&& t.linksets == raw.linksets
            &&& t.mtp3_routes == raw.mtp3_routes
            &&& t.content_routing == raw.content_routing
            &&& t.isup_screening == raw.isup_screening
            &&& raw.sccp matches Some(s) ==> t.sccp == s
            &&& raw.sccp is None ==> t.sccp.gtt@.len() == 0 && t.sccp.gtt_groups@.len() == 0
                && t.sccp.local_ssns@.len() == 0
        },
{
}

// ── Which fault is reported ─────────────────────────────────────────────────

/// Of several faults in a list the first is reported.
pub proof fn law_first_fault_is_reported<E>(
    f: spec_fn(int) -> Option<E>,
    from: int,
    n: int,
    i: int,
)
    requires
        from <= i < n,
        f(i) is Some,
        forall|j: int| from <= j < i ==> (#[trigger] f(j)) is None,
    ensures
        first_fault(f, from, n) == f(i),
    decreases i - from,
{
    if from < i {
        assert(f(from) is None);
        law_first_fault_is_reported(f, from + 1, n, i);
    }
}

proof fn no_fault<E>(f: spec_fn(int) -> Option<E>, from: int, n: int)
    requires
        forall|j: int| from <= j < n ==> (#[trigger] f(j)) is None,
    ensures
        first_fault(f, from, n) is None,
    decreases n - from,
{
    if from < n {
        assert(f(from) is None);
        no_fault(f, from + 1, n);
    }
}

/// An association is in order: its identifier is new, it has an address, and its
/// neighbour's point code has at most 24 bits.
pub open spec fn association_in_order(c: &Config, i: int) -> bool {
    &&& forall|j: int| 0 <= j < i ==> (#[trigger] c.associations@[j]).id@ != c.associations@[i].id@
    &&& c.associations@[i].addrs@.len() > 0
    &&& c.associations@[i].adjacent_pc matches Some(pc) ==> pc.0 <= 0xFF_FFFF
}

proof fn fault_of_association(c: &Config, i: int)
    requires
        0 <= i < c.associations@.len(),
    ensures
        association_fault(c, i) is None <==> association_in_order(c, i),
{
    let ids = crate::config::validate::association_ids(c);
    if crate::config::validate::repeated(ids, i) {
        let j = choose|j: int| 0 <= j < i && #[trigger] ids[j] == ids[i];
        assert(c.associations@[j].id@ == c.associations@[i].id@);
    }
    if exists|j: int|
        0 <= j < i && (#[trigger] c.associations@[j]).id@ == c.associations@[i].id@ {
        let j = choose|j: int|
            0 <= j < i && (#[trigger] c.associations@[j]).id@ == c.associations@[i].id@;
        assert(ids[j] == ids[i]);
    }
}

/// The first association that is not in order is the one reported, before any tenant: a
/// repeated identifier by its name, a missing address by the association's name, and a
/// neighbour's point code that is too large by its value.
pub proof fn law_first_bad_association_is_reported(c: &Config, i: int)
    requires
        0 <= i < c.associations@.len(),
        !association_in_order(c, i),
        forall|j: int| 0 <= j < i ==> #[trigger] association_in_order(c, j),
    ensures
        ({
            let a = c.associations@[i];
            let again = exists|j: int| 0 <= j < i && (#[trigger] c.associations@[j]).id@ == a.id@;
            &&& again ==> config_fault(c) == Some(
                Fault::Validation("duplicate association id `"@ + a.id@ + "`"@),
            )
            &&& !again && a.addrs@.len() == 0 ==> config_fault(c) == Some(
                Fault::Validation("association `"@ + a.id@ + "` has no addresses"@),
            )
            &&& !again && a.addrs@.len() > 0 ==> config_fault(c) == Some(
                Fault::PointCode(
                    PointCodeFault::OutOfRange {
                        value: a.adjacent_pc->Some_0.0,
                        bits: 24,
                        variant: Variant::Ansi,
                    },
                ),
            )
        }),
{
    fault_of_association(c, i);
    assert forall|j: int| 0 <= j < i implies (#[trigger] association_faults(c)(j)) is None by {
        assert(association_in_order(c, j));
        fault_of_association(c, j);
    }
    law_first_fault_is_reported(association_faults(c), 0, c.associations@.len() as int, i);
    let ids = crate::config::validate::association_ids(c);
    let a = c.associations@[i];
    if exists|j: int| 0 <= j < i && (#[trigger] c.associations@[j]).id@ == a.id@ {
        let j = choose|j: int| 0 <= j < i && (#[trigger] c.associations@[j]).id@ == a.id@;
        assert(ids[j] == ids[i]);
    } else {
        if crate::config::validate::repeated(ids, i) {
            let j = choose|j: int| 0 <= j < i && #[trigger] ids[j] == ids[i];
            assert(c.associations@[j].id@ == a.id@);
        }
    }
}

/// With every association in order, the fault of the first faulty tenant is the one
/// reported, under the tenant's name.
pub proof fn law_first_bad_tenant_is_reported(c: &Config, i: int)
    requires
        forall|j: int|
            0 <= j < c.associations@.len() ==> #[trigger] association_in_order(c, j),
        0 <= i < c.tenants.size(),
        crate::config::validate::tenant_fault(c, &c.tenants.value_at(i)) is Some,
        forall|j: int|
            0 <= j < i ==> crate::config::validate::tenant_fault(
                c,
                &#[trigger] c.tenants.value_at(j),
            ) is None,
    ensures
        config_fault(c) == Some(
            Fault::Validation(
                "tenant `"@ + c.tenants.key_at(i) + "`: "@ + crate::config::validate::tenant_fault(
                    c,
                    &c.tenants.value_at(i),
                )->Some_0,
            ),
        ),
{
    assert forall|j: int| 0 <= j < c.associations@.len() implies (#[trigger] association_faults(c)(
        j,
    )) is None by {
        assert(association_in_order(c, j));
        fault_of_association(c, j);
    }
    no_fault(association_faults(c), 0, c.associations@.len() as int);
    assert forall|j: int| 0 <= j < i implies (#[trigger] named_tenant_faults(c)(j)) is None by {
        assert(crate::config::validate::tenant_fault(c, &c.tenants.value_at(j)) is None);
        assert(named_tenant_fault(c, j) is None);
    }
    law_first_fault_is_reported(named_tenant_faults(c), 0, c.tenants.size() as int, i);
}

// ── Point codes ─────────────────────────────────────────────────────────────

/// A number is a point code of a variant exactly if it has no more bits than the variant
/// gives one: 14 in the international variant, 24 in the others.
pub proof fn law_point_code_has_its_bits(value: u32, v: Variant)
    ensures
        v == Variant::Itu ==> (resolved(value, v) is Ok <==> value <= 0x3FFF),
        v != Variant::Itu ==> (resolved(value, v) is Ok <==> value <= 0xFF_FFFF),
        resolved(value, v) matches Ok(p) ==> p.value == value && p.variant == v,
        resolved(value, v) matches Err(e) ==> e == (PointCodeFault::OutOfRange {
            value,
            bits: if v == Variant::Itu {
                14
            } else {
                24
            },
            variant: v,
        }),
{
}

/// A point code assembled from three fields gives the fields back: 3, 8 and 3 bits in the
/// international variant, 8 bits each in the others. The first field that does not fit is
/// refused, with its width.
pub proof fn law_fields_are_read_back(a: u32, b: u32, c: u32, v: Variant)
    ensures
        assembled(a, b, c, v) matches Ok(p) ==> p.variant == v && (if v == Variant::Itu {
            p.value / 2048 == a && p.value / 8 % 256 == b && p.value % 8 == c && p.value <= 0x3FFF
        } else {
            p.value / 65536 == a && p.value / 256 % 256 == b && p.value % 256 == c && p.value
                <= 0xFF_FFFF
        }),
        assembled(a, b, c, v) is Ok <==> (if v == Variant::Itu {
            a < 8 && b < 256 && c < 8
        } else {
            a < 256 && b < 256 && c < 256
        }),
        v == Variant::Itu && a >= 8 ==> assembled(a, b, c, v) == Err::<PointCode, PointCodeFault>(
            PointCodeFault::ComponentTooLarge { value: a, bits: 3, variant: v },
        ),
        v != Variant::Itu && a >= 256 ==> assembled(a, b, c, v) == Err::<
            PointCode,
            PointCodeFault,
        >(PointCodeFault::ComponentTooLarge { value: a, bits: 8, variant: v }),
        (if v == Variant::Itu {
            a < 8
        } else {
            a < 256
        }) && b >= 256 ==> assembled(a, b, c, v) == Err::<PointCode, PointCodeFault>(
            PointCodeFault::ComponentTooLarge { value: b, bits: 8, variant: v },
        ),
        v == Variant::Itu && a < 8 && b < 256 && c >= 8 ==> assembled(a, b, c, v) == Err::<
            PointCode,
            PointCodeFault,
        >(PointCodeFault::ComponentTooLarge { value: c, bits: 3, variant: v }),
        v != Variant::Itu && a < 256 && b < 256 && c >= 256 ==> assembled(a, b, c, v) == Err::<
            PointCode,
            PointCodeFault,
        >(PointCodeFault::ComponentTooLarge { value: c, bits: 8, variant: v }),
{
    lemma2_to64();
    let byte: int = pow2(8) as int;
    let high: int = a * byte + b;
    assert(high == a * 256 + b) by (nonlinear_arith)
        requires
            high == a * byte + b,
            byte == 256,
    ;
    let low: int = pow2(if v == Variant::Itu {
        3
    } else {
        8
    }) as int;
    assert(v == Variant::Itu ==> high * low + c == high * 8 + c) by (nonlinear_arith)
        requires
            v == Variant::Itu ==> low == 8,
    ;
    assert(v != Variant::Itu ==> high * low + c == high * 256 + c) by (nonlinear_arith)
        requires
            v != Variant::Itu ==> low == 256,
    ;
}

} // verus!
