//! Laws of MTP3 routing and availability.
use crate::config::{Adaptation, Association, Linkset, Mtp3Route, Tenant};
use crate::mtp3::route::{
    adjacent_entries, adjacent_of, all_entries, best_egress, best_unique, explicit_entries, is_best,
    link_entries, route_egress, routes_to, with_choice, Availability, Choice, Egress, Mtp3Event,
    Mtp3Status, RouteResolver,
};
use crate::point_code::PointCode;
use vstd::prelude::*;

verus! {

/// What a point code resolves to is one of its candidates, is in service, and no
/// candidate in service has a lower priority number.
pub proof fn law_resolved_is_best(cs: Seq<Choice>, a: Availability, dpc: u32)
    ensures
        best_egress(cs, a, dpc) matches Some(e) ==> {
            &&& a.available(e)
            &&& exists|i: int|
                0 <= i < cs.len() && #[trigger] cs[i].dest == e && forall|j: int|
                    0 <= j < cs.len() && a.available((#[trigger] cs[j]).dest) ==> cs[i].priority
                        <= cs[j].priority
        },
{
    if best_egress(cs, a, dpc) is Some {
        let i = choose|i: int| is_best(cs, a, i);
        assert(cs[i].dest == best_egress(cs, a, dpc)->Some_0);
    }
}

/// Some available candidate exists: then one of them is the best.
pub proof fn best_exists(cs: Seq<Choice>, a: Availability, k: int)
    requires
        0 <= k < cs.len(),
        a.available(cs[k].dest),
    ensures
        exists|i: int| is_best(cs, a, i),
    decreases cs.len(),
{
    let head = cs.drop_last();
    let n = cs.len() - 1;
    if exists|m: int| 0 <= m < head.len() && a.available(#[trigger] head[m].dest) {
        let m = choose|m: int| 0 <= m < head.len() && a.available(#[trigger] head[m].dest);
        best_exists(head, a, m);
        let b = choose|b: int| is_best(head, a, b);
        if a.available(cs[n].dest) && cs[n].priority < cs[b].priority {
            assert forall|j: int| 0 <= j < cs.len() && a.available((#[trigger] cs[j]).dest) implies cs[n].priority
                < cs[j].priority || (cs[n].priority == cs[j].priority && n <= j) by {
                if j < n {
                    assert(head[j] == cs[j]);
                }
            }
            assert(is_best(cs, a, n));
        } else {
            assert forall|j: int| 0 <= j < cs.len() && a.available((#[trigger] cs[j]).dest) implies cs[b].priority
                < cs[j].priority || (cs[b].priority == cs[j].priority && b <= j) by {
                if j < n {
                    assert(head[j] == cs[j]);
                }
            }
            assert(is_best(cs, a, b));
        }
    } else {
        assert forall|j: int| 0 <= j < cs.len() && a.available((#[trigger] cs[j]).dest) implies j == n by {
            if j < n {
                assert(head[j].dest == cs[j].dest);
            }
        }
        assert(is_best(cs, a, n));
    }
}

/// A point code resolves exactly when it is not prohibited and some candidate is
/// in service: an alternate is used whenever the primary is down.
pub proof fn law_resolves_iff_some_available(cs: Seq<Choice>, a: Availability, dpc: u32)
    ensures
        best_egress(cs, a, dpc) is Some <==> !a.prohibited.contains(dpc) && exists|k: int|
            0 <= k < cs.len() && a.available((#[trigger] cs[k]).dest),
{
    if exists|k: int| 0 <= k < cs.len() && a.available((#[trigger] cs[k]).dest) {
        let k = choose|k: int| 0 <= k < cs.len() && a.available((#[trigger] cs[k]).dest);
        best_exists(cs, a, k);
    }
    if exists|i: int| is_best(cs, a, i) {
        let i = choose|i: int| is_best(cs, a, i);
        assert(a.available(cs[i].dest));
    }
}

/// A pause prohibits the point code: nothing resolves for it, whatever is up.
pub proof fn law_pause_prohibits(cs: Seq<Choice>, a: Availability, pc: PointCode)
    ensures
        a.after(Mtp3Event::Pause { affected: pc }).prohibited.contains(pc.value),
        best_egress(cs, a.after(Mtp3Event::Pause { affected: pc }), pc.value) is None,
{
}

/// A pause followed by a resume restores what a point code that was not
/// prohibited resolved to.
pub proof fn law_resume_restores(cs: Seq<Choice>, a: Availability, pc: PointCode)
    requires
        !a.prohibited.contains(pc.value),
    ensures
        best_egress(
            cs,
            a.after(Mtp3Event::Pause { affected: pc }).after(Mtp3Event::Resume { affected: pc }),
            pc.value,
        ) == best_egress(cs, a, pc.value),
        a.after(Mtp3Event::Pause { affected: pc }).after(
            Mtp3Event::Resume { affected: pc },
        ).prohibited == a.prohibited,
{
    let b = a.after(Mtp3Event::Pause { affected: pc }).after(Mtp3Event::Resume { affected: pc });
    assert(b.prohibited =~= a.prohibited);
    law_depends_on_service_only(cs, a, b, pc.value);
}

/// What a point code resolves to depends only on what is in service and on
/// whether that point code is prohibited.
pub proof fn law_depends_on_service_only(cs: Seq<Choice>, a: Availability, b: Availability, dpc: u32)
    requires
        a.as_up == b.as_up,
        a.linksets_up == b.linksets_up,
        a.prohibited.contains(dpc) == b.prohibited.contains(dpc),
    ensures
        best_egress(cs, a, dpc) == best_egress(cs, b, dpc),
{
    assert forall|i: int| is_best(cs, a, i) == is_best(cs, b, i) by {
        assert forall|e: Egress| a.available(e) == b.available(e) by {}
    }
    if exists|i: int| is_best(cs, a, i) {
        let i = choose|i: int| is_best(cs, a, i);
        let j = choose|j: int| is_best(cs, b, j);
        assert(is_best(cs, b, i));
        best_unique(cs, b, i, j);
    } else {
        assert(forall|i: int| !is_best(cs, b, i));
    }
}

/// Congestion sets the level and leaves every route as it was.
pub proof fn law_congestion_keeps_routes(
    cs: Seq<Choice>,
    a: Availability,
    pc: PointCode,
    level: u8,
    dpc: u32,
)
    ensures
        a.after(
            Mtp3Event::Status { affected: pc, status: Mtp3Status::Congested { level } },
        ).level(pc.value) == level,
        best_egress(
            cs,
            a.after(Mtp3Event::Status { affected: pc, status: Mtp3Status::Congested { level } }),
            dpc,
        ) == best_egress(cs, a, dpc),
{
    law_depends_on_service_only(
        cs,
        a,
        a.after(Mtp3Event::Status { affected: pc, status: Mtp3Status::Congested { level } }),
        dpc,
    );
}

/// An event about one point code leaves every other point code's routes alone.
pub proof fn law_event_is_local(cs: Seq<Choice>, a: Availability, event: Mtp3Event, dpc: u32)
    requires
        event matches Mtp3Event::Pause { affected } ==> affected.value != dpc,
        event matches Mtp3Event::Resume { affected } ==> affected.value != dpc,
        event matches Mtp3Event::Status { affected, .. } ==> affected.value != dpc,
    ensures
        best_egress(cs, a.after(event), dpc) == best_egress(cs, a, dpc),
        a.after(event).level(dpc) == a.level(dpc),
{
    law_depends_on_service_only(cs, a, a.after(event), dpc);
}

/// With everything down nothing resolves.
pub proof fn law_all_down_resolves_nothing(cs: Seq<Choice>, a: Availability, dpc: u32)
    requires
        a.as_up == Set::<Seq<char>>::empty(),
        a.linksets_up == Set::<Seq<char>>::empty(),
    ensures
        best_egress(cs, a, dpc) is None,
{
    assert forall|i: int| !is_best(cs, a, i) by {
        if 0 <= i < cs.len() {
            assert(!a.available(cs[i].dest));
        }
    }
}

/// Bringing an Application Server that was up down and up again restores every
/// route: a fail-over is undone when the primary returns.
pub proof fn law_failover_is_undone(a: Availability, name: Seq<char>)
    requires
        a.as_up.contains(name),
    ensures
        (Availability { as_up: a.as_up.remove(name).insert(name), ..a }) == a,
{
    assert(a.as_up.remove(name).insert(name) =~= a.as_up);
}

/// Adding a route twice is adding it once.
pub proof fn law_add_is_idempotent(cs: Seq<Choice>, c: Choice)
    ensures
        with_choice(with_choice(cs, c), c) == with_choice(cs, c),
        with_choice(cs, c).contains(c),
{
    if !cs.contains(c) {
        assert(cs.push(c).last() == c);
        assert(cs.push(c).contains(c));
    }
}

proof fn routes_to_has(a: Seq<(u32, Choice)>, i: int)
    requires
        0 <= i < a.len(),
    ensures
        routes_to(a, a[i].0).contains(a[i].1),
    decreases a.len(),
{
    let d = a[i].0;
    let r = routes_to(a.drop_last(), d);
    if i == a.len() - 1 {
        assert(routes_to(a, d) == r.push(a[i].1));
        assert(r.push(a[i].1)[r.len() as int] == a[i].1);
    } else {
        routes_to_has(a.drop_last(), i);
        let k = choose|k: int| 0 <= k < r.len() && r[k] == a[i].1;
        assert(routes_to(a, d)[k] == a[i].1);
    }
}

proof fn link_entry_exists(t: &Tenant, assocs: Seq<Association>, i: int, k: int, n: int) -> (at: int)
    requires
        0 <= i < t.linksets@.len(),
        0 <= k < n <= t.linksets@[i].links@.len(),
        adjacent_of(assocs, t.linksets@[i].links@[k].assoc@) is Some,
    ensures
        0 <= at < link_entries(assocs, t.linksets@[i], n).len(),
        link_entries(assocs, t.linksets@[i], n)[at] == (
            adjacent_of(assocs, t.linksets@[i].links@[k].assoc@)->Some_0,
            Choice { dest: Egress::Linkset(t.linksets@[i].name@), priority: 0 },
        ),
    decreases n,
{
    if n - 1 == k {
        link_entries(assocs, t.linksets@[i], n).len() - 1
    } else {
        link_entry_exists(t, assocs, i, k, n - 1)
    }
}

proof fn adjacent_entry_exists(
    t: &Tenant,
    assocs: Seq<Association>,
    i: int,
    at: int,
    n: int,
) -> (place: int)
    requires
        0 <= i < n <= t.linksets@.len(),
        0 <= at < link_entries(assocs, t.linksets@[i], t.linksets@[i].links@.len() as int).len(),
    ensures
        0 <= place < adjacent_entries(assocs, t.linksets@, n).len(),
        adjacent_entries(assocs, t.linksets@, n)[place] == link_entries(
            assocs,
            t.linksets@[i],
            t.linksets@[i].links@.len() as int,
        )[at],
    decreases n,
{
    if n - 1 == i {
        adjacent_entries(assocs, t.linksets@, n - 1).len() + at
    } else {
        adjacent_entry_exists(t, assocs, i, at, n - 1)
    }
}

/// The adjacent point code of a link is routed over its linkset at priority 0,
/// with no configured route needed.
pub proof fn law_adjacent_is_routed(t: &Tenant, assocs: Seq<Association>, i: int, k: int)
    requires
        0 <= i < t.linksets@.len(),
        0 <= k < t.linksets@[i].links@.len(),
        adjacent_of(assocs, t.linksets@[i].links@[k].assoc@) is Some,
    ensures
        routes_to(
            all_entries(t, assocs),
            adjacent_of(assocs, t.linksets@[i].links@[k].assoc@)->Some_0,
        ).contains(Choice { dest: Egress::Linkset(t.linksets@[i].name@), priority: 0 }),
{
    let at = link_entry_exists(t, assocs, i, k, t.linksets@[i].links@.len() as int);
    let place = adjacent_entry_exists(t, assocs, i, at, t.linksets@.len() as int);
    let adjacent = adjacent_entries(assocs, t.linksets@, t.linksets@.len() as int);
    assert(all_entries(t, assocs)[place] == adjacent[place]);
    routes_to_has(all_entries(t, assocs), place);
}

// ── Which point codes have a route ──────────────────────────────────────────

/// An association leads over M2PA to the point code of a neighbour.
pub open spec fn leads_to(a: Association, d: u32) -> bool {
    a.adaptation == Adaptation::M2pa && (a.adjacent_pc matches Some(pc) && pc.0 == d)
}

/// An association leads over M2PA to some neighbour.
pub open spec fn leads(a: Association) -> bool {
    a.adaptation == Adaptation::M2pa && a.adjacent_pc is Some
}

/// A configured route with a destination is for this point code.
pub open spec fn routed(t: &Tenant, d: u32) -> bool {
    exists|i: int|
        0 <= i < t.mtp3_routes@.len() && (#[trigger] t.mtp3_routes@[i]).dpc.0 == d && (
        t.mtp3_routes@[i].as_ is Some || t.mtp3_routes@[i].linkset is Some)
}

/// A link of the tenant names this association.
pub open spec fn linked(t: &Tenant, id: Seq<char>) -> bool {
    exists|i: int, k: int|
        0 <= i < t.linksets@.len() && 0 <= k < t.linksets@[i].links@.len()
            && #[trigger] t.linksets@[i].links@[k].assoc@ == id
}

/// Association `a` is the last called `id` that leads to a neighbour, and leads to
/// this one.
pub open spec fn leads_last(assocs: Seq<Association>, id: Seq<char>, a: int, d: u32) -> bool {
    &&& 0 <= a < assocs.len()
    &&& assocs[a].id@ == id
    &&& leads_to(assocs[a], d)
    &&& forall|b: int|
        a < b < assocs.len() && assocs[b].id@ == id ==> !leads(#[trigger] assocs[b])
}

/// An M2PA association that a link names leads to this neighbour. Where several
/// have one identifier, the last that has a neighbour counts.
pub open spec fn neighbour(t: &Tenant, assocs: Seq<Association>, d: u32) -> bool {
    exists|id: Seq<char>, a: int| linked(t, id) && #[trigger] leads_last(assocs, id, a, d)
}

/// One of the added routes is for this point code.
pub open spec fn added_route(adds: Seq<(u32, Choice)>, d: u32) -> bool {
    exists|i: int| 0 <= i < adds.len() && (#[trigger] adds[i]).0 == d
}

pub(crate) proof fn adjacent_is_last(assocs: Seq<Association>, id: Seq<char>)
    ensures
        adjacent_of(assocs, id) is Some ==> exists|a: int|
            leads_last(assocs, id, a, adjacent_of(assocs, id)->Some_0),
        adjacent_of(assocs, id) is None ==> forall|a: int|
            0 <= a < assocs.len() && assocs[a].id@ == id ==> !leads(#[trigger] assocs[a]),
    decreases assocs.len(),
{
    if assocs.len() > 0 {
        let n = assocs.len() - 1;
        let head = assocs.drop_last();
        let last = assocs.last();
        adjacent_is_last(head, id);
        if last.adaptation == Adaptation::M2pa && last.adjacent_pc is Some && last.id@ == id {
            assert(leads_last(assocs, id, n, last.adjacent_pc->Some_0.0));
            assert(adjacent_of(assocs, id) == Some(last.adjacent_pc->Some_0.0));
            assert(leads_last(assocs, id, n, adjacent_of(assocs, id)->Some_0));
        } else {
            assert(adjacent_of(assocs, id) == adjacent_of(head, id));
            match adjacent_of(head, id) {
                Some(d) => {
                    let a = choose|a: int| leads_last(head, id, a, d);
                    assert forall|b: int|
                        a < b < assocs.len() && assocs[b].id@ == id implies !leads(
                        #[trigger] assocs[b],
                    ) by {
                        if b < n {
                            assert(head[b] == assocs[b]);
                        }
                    }
                    assert(leads_last(assocs, id, a, adjacent_of(assocs, id)->Some_0));
                },
                None => {},
            }
        }
        if adjacent_of(assocs, id) is None {
            assert(adjacent_of(head, id) is None);
            assert(!(last.id@ == id && leads(last)));
            assert forall|a: int| 0 <= a < assocs.len() && assocs[a].id@ == id implies !leads(
                #[trigger] assocs[a],
            ) by {
                if a < n {
                    assert(head[a] == assocs[a]);
                    assert(!leads(head[a]));
                } else {
                    assert(assocs[a] == last);
                }
            }
        }
    }
}

proof fn routes_to_from(a: Seq<(u32, Choice)>, d: u32)
    requires
        routes_to(a, d).len() > 0,
    ensures
        exists|i: int| 0 <= i < a.len() && (#[trigger] a[i]).0 == d,
    decreases a.len(),
{
    if a.last().0 == d {
        assert(a[a.len() - 1].0 == d);
    } else {
        routes_to_from(a.drop_last(), d);
        let i = choose|i: int| 0 <= i < a.drop_last().len() && (#[trigger] a.drop_last()[i]).0 == d;
        assert(a[i].0 == d);
    }
}

pub(crate) proof fn link_entry_from(assocs: Seq<Association>, l: Linkset, n: int, at: int) -> (k: int)
    requires
        0 <= n <= l.links@.len(),
        0 <= at < link_entries(assocs, l, n).len(),
    ensures
        0 <= k < n,
        adjacent_of(assocs, l.links@[k].assoc@) == Some(link_entries(assocs, l, n)[at].0),
    decreases n,
{
    if adjacent_of(assocs, l.links@[n - 1].assoc@) is Some && at == link_entries(assocs, l, n).len()
        - 1 {
        n - 1
    } else {
        link_entry_from(assocs, l, n - 1, at)
    }
}

proof fn adjacent_entry_from(assocs: Seq<Association>, ls: Seq<Linkset>, n: int, at: int) -> (r: (
    int,
    int,
))
    requires
        0 <= n <= ls.len(),
        0 <= at < adjacent_entries(assocs, ls, n).len(),
    ensures
        0 <= r.0 < n,
        0 <= r.1 < ls[r.0].links@.len(),
        adjacent_of(assocs, ls[r.0].links@[r.1].assoc@) == Some(
            adjacent_entries(assocs, ls, n)[at].0,
        ),
    decreases n,
{
    let before = adjacent_entries(assocs, ls, n - 1);
    if at < before.len() {
        adjacent_entry_from(assocs, ls, n - 1, at)
    } else {
        let l = ls[n - 1];
        let k = link_entry_from(assocs, l, l.links@.len() as int, at - before.len());
        (n - 1, k)
    }
}

proof fn explicit_entry_from(rs: Seq<Mtp3Route>, n: int, at: int) -> (i: int)
    requires
        0 <= n <= rs.len(),
        0 <= at < explicit_entries(rs, n).len(),
    ensures
        0 <= i < n,
        route_egress(rs[i]) is Some,
        rs[i].dpc.0 == explicit_entries(rs, n)[at].0,
    decreases n,
{
    if route_egress(rs[n - 1]) is Some && at == explicit_entries(rs, n).len() - 1 {
        n - 1
    } else {
        explicit_entry_from(rs, n - 1, at)
    }
}

proof fn explicit_entry_exists(rs: Seq<Mtp3Route>, n: int, i: int) -> (at: int)
    requires
        0 <= i < n <= rs.len(),
        route_egress(rs[i]) is Some,
    ensures
        0 <= at < explicit_entries(rs, n).len(),
        explicit_entries(rs, n)[at].0 == rs[i].dpc.0,
    decreases n,
{
    if n - 1 == i {
        explicit_entries(rs, n).len() - 1
    } else {
        explicit_entry_exists(rs, n - 1, i)
    }
}

proof fn built_code_is_named(t: &Tenant, assocs: Seq<Association>, d: u32)
    requires
        routes_to(all_entries(t, assocs), d).len() > 0,
    ensures
        routed(t, d) || neighbour(t, assocs, d),
{
    let all = all_entries(t, assocs);
    let adjacent = adjacent_entries(assocs, t.linksets@, t.linksets@.len() as int);
    routes_to_from(all, d);
    let at = choose|i: int| 0 <= i < all.len() && (#[trigger] all[i]).0 == d;
    if at < adjacent.len() {
        let r = adjacent_entry_from(assocs, t.linksets@, t.linksets@.len() as int, at);
        let id = t.linksets@[r.0].links@[r.1].assoc@;
        adjacent_is_last(assocs, id);
        let a = choose|a: int| leads_last(assocs, id, a, d);
        assert(linked(t, id));
        assert(leads_last(assocs, id, a, d));
    } else {
        let i = explicit_entry_from(
            t.mtp3_routes@,
            t.mtp3_routes@.len() as int,
            at - adjacent.len(),
        );
        assert(t.mtp3_routes@[i].dpc.0 == d);
    }
}

proof fn routed_code_is_built(t: &Tenant, assocs: Seq<Association>, d: u32)
    requires
        routed(t, d),
    ensures
        routes_to(all_entries(t, assocs), d).len() > 0,
{
    let all = all_entries(t, assocs);
    let adjacent = adjacent_entries(assocs, t.linksets@, t.linksets@.len() as int);
    let i = choose|i: int|
        0 <= i < t.mtp3_routes@.len() && (#[trigger] t.mtp3_routes@[i]).dpc.0 == d && (
        t.mtp3_routes@[i].as_ is Some || t.mtp3_routes@[i].linkset is Some);
    let at = explicit_entry_exists(t.mtp3_routes@, t.mtp3_routes@.len() as int, i);
    let place: int = adjacent.len() + at;
    assert(all[place].0 == d);
    routes_to_has(all, place);
}

proof fn neighbour_code_is_built(t: &Tenant, assocs: Seq<Association>, d: u32)
    requires
        neighbour(t, assocs, d),
    ensures
        routes_to(all_entries(t, assocs), d).len() > 0,
{
    let (id, a) = choose|id: Seq<char>, a: int|
        linked(t, id) && #[trigger] leads_last(assocs, id, a, d);
    let (i, k) = choose|i: int, k: int|
        0 <= i < t.linksets@.len() && 0 <= k < t.linksets@[i].links@.len()
            && #[trigger] t.linksets@[i].links@[k].assoc@ == id;
    adjacent_is_last(assocs, id);
    assert(leads(assocs[a]));
    match adjacent_of(assocs, id) {
        Some(e) => {
            let c = choose|c: int| leads_last(assocs, id, c, e);
            assert(leads(assocs[c]));
            assert(a == c);
        },
        None => {},
    }
    law_adjacent_is_routed(t, assocs, i, k);
}

proof fn after_adds(rs: Seq<RouteResolver>, adds: Seq<(u32, Choice)>, d: u32)
    requires
        rs.len() == adds.len() + 1,
        forall|i: int|
            0 <= i < adds.len() ==> (#[trigger] rs[i + 1]).adds_to(rs[i], adds[i].0, adds[i].1),
    ensures
        rs.last().candidates(d).len() > 0 <==> rs[0].candidates(d).len() > 0 || added_route(adds, d),
    decreases adds.len(),
{
    if adds.len() > 0 {
        let n = adds.len() - 1;
        let less = adds.drop_last();
        let before = rs.drop_last();
        assert forall|i: int| 0 <= i < less.len() implies (#[trigger] before[i + 1]).adds_to(
            before[i],
            less[i].0,
            less[i].1,
        ) by {
            assert(rs[i + 1].adds_to(rs[i], adds[i].0, adds[i].1));
        }
        after_adds(before, less, d);
        assert(rs[n + 1].adds_to(rs[n], adds[n].0, adds[n].1));
        assert(before.last() == rs[n]);
        if added_route(less, d) {
            let i = choose|i: int| 0 <= i < less.len() && (#[trigger] less[i]).0 == d;
            assert(adds[i].0 == d);
        }
        if added_route(adds, d) && adds[n].0 != d {
            let i = choose|i: int| 0 <= i < adds.len() && (#[trigger] adds[i]).0 == d;
            assert(less[i].0 == d);
        }
        if adds[n].0 == d {
            assert(added_route(adds, d));
            let cs = rs[n].candidates(d);
            if cs.contains(adds[n].1) {
                assert(cs.len() > 0);
            }
        }
    }
}

/// The list of point codes of a table that was built from a tenant and then had
/// routes added, one after the other: it is in increasing order, so that none is
/// listed twice, and it holds exactly the point codes of the configured routes
/// that have a destination, of the M2PA neighbours that a link leads to, and of
/// the added routes. `rs` holds the table after each step. With distinct
/// identifiers every M2PA association that a link names counts.
pub proof fn law_listed_point_codes(
    t: &Tenant,
    assocs: Seq<Association>,
    rs: Seq<RouteResolver>,
    adds: Seq<(u32, Choice)>,
    listed: Seq<u32>,
)
    requires
        rs.len() == adds.len() + 1,
        rs[0].built_from(t, assocs),
        forall|i: int|
            0 <= i < adds.len() ==> (#[trigger] rs[i + 1]).adds_to(rs[i], adds[i].0, adds[i].1),
        rs.last().lists(listed),
    ensures
        forall|i: int, j: int| 0 <= i < j < listed.len() ==> listed[i] < listed[j],
        forall|d: u32|
            #![trigger listed.contains(d)]
            listed.contains(d) <==> routed(t, d) || neighbour(t, assocs, d) || added_route(adds, d),
        (forall|a: int, b: int| 0 <= a < b < assocs.len() ==> assocs[a].id@ != assocs[b].id@)
            ==> forall|d: u32|
            #![trigger listed.contains(d)]
            listed.contains(d) <==> routed(t, d) || added_route(adds, d) || exists|a: int|
                0 <= a < assocs.len() && leads_to(#[trigger] assocs[a], d) && linked(
                    t,
                    assocs[a].id@,
                ),
{
    assert forall|d: u32|
        #![trigger listed.contains(d)]
        listed.contains(d) <==> routed(t, d) || neighbour(t, assocs, d) || added_route(adds, d) by {
        after_adds(rs, adds, d);
        assert(rs[0].candidates(d) == routes_to(all_entries(t, assocs), d));
        if routes_to(all_entries(t, assocs), d).len() > 0 {
            built_code_is_named(t, assocs, d);
        }
        if routed(t, d) {
            routed_code_is_built(t, assocs, d);
        }
        if neighbour(t, assocs, d) {
            neighbour_code_is_built(t, assocs, d);
        }
    }
    if forall|a: int, b: int| 0 <= a < b < assocs.len() ==> assocs[a].id@ != assocs[b].id@ {
        assert forall|d: u32| neighbour(t, assocs, d) <==> exists|a: int|
            0 <= a < assocs.len() && leads_to(#[trigger] assocs[a], d) && linked(
                t,
                assocs[a].id@,
            ) by {
            if exists|a: int|
                0 <= a < assocs.len() && leads_to(#[trigger] assocs[a], d) && linked(
                    t,
                    assocs[a].id@,
                ) {
                let a = choose|a: int|
                    0 <= a < assocs.len() && leads_to(#[trigger] assocs[a], d) && linked(
                        t,
                        assocs[a].id@,
                    );
                assert(leads_last(assocs, assocs[a].id@, a, d));
            }
            if neighbour(t, assocs, d) {
                let (id, a) = choose|id: Seq<char>, a: int|
                    linked(t, id) && #[trigger] leads_last(assocs, id, a, d);
                assert(leads_to(assocs[a], d));
            }
        }
    }
}

} // verus!
