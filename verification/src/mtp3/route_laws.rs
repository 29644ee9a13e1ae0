//! What the route table answers, stated on the configuration that it was built from.
use crate::config::{Association, Linkset, Mtp3Route, Tenant};
use crate::mtp3::laws::{adjacent_is_last, leads_last, link_entry_from, neighbour};
use crate::mtp3::route::{
    adjacent_entries, adjacent_of, all_entries, best_egress, best_unique, explicit_entries, is_best,
    link_entries, route_egress, routes_to, Availability, Choice, Egress, Mtp3Event, RouteResolver,
};
use crate::point_code::PointCode;
use vstd::prelude::*;

verus! {

/// A configured route is for this point code, and what it leads over is in service:
/// its Application Server if it names one, else its linkset.
pub open spec fn serves(r: Mtp3Route, a: Availability, d: u32) -> bool {
    &&& r.dpc.0 == d
    &&& match (r.as_, r.linkset) {
        (Some(n), _) => a.as_up.contains(n@),
        (None, Some(l)) => a.linksets_up.contains(l@),
        (None, None) => false,
    }
}

/// A link of this linkset leads to this neighbour, and the linkset is in service.
pub open spec fn links_to(l: Linkset, assocs: Seq<Association>, a: Availability, d: u32) -> bool {
    &&& a.linksets_up.contains(l.name@)
    &&& exists|k: int, i: int|
        0 <= k < l.links@.len() && #[trigger] leads_last(assocs, l.links@[k].assoc@, i, d)
}

spec fn open_entry(es: Seq<(u32, Choice)>, a: Availability, d: u32, p: int) -> bool {
    0 <= p < es.len() && es[p].0 == d && a.available(es[p].1.dest)
}

proof fn entry_of_choice(es: Seq<(u32, Choice)>, d: u32, k: int) -> (q: int)
    requires
        0 <= k < routes_to(es, d).len(),
    ensures
        0 <= q < es.len(),
        es[q].0 == d,
        es[q].1 == routes_to(es, d)[k],
    decreases es.len(),
{
    if es.last().0 == d && k == routes_to(es, d).len() - 1 {
        es.len() - 1
    } else {
        entry_of_choice(es.drop_last(), d, k)
    }
}

proof fn best_entry(es: Seq<(u32, Choice)>, a: Availability, d: u32, p: int) -> (i: int)
    requires
        open_entry(es, a, d, p),
        forall|q: int| #[trigger]
            open_entry(es, a, d, q) ==> es[p].1.priority < es[q].1.priority || (es[p].1.priority
                == es[q].1.priority && p <= q),
    ensures
        is_best(routes_to(es, d), a, i),
        routes_to(es, d)[i] == es[p].1,
    decreases es.len(),
{
    let cs = routes_to(es, d);
    let head = es.drop_last();
    let before = routes_to(head, d);
    let n = es.len() - 1;
    if p == n {
        let i = cs.len() - 1;
        assert forall|j: int| 0 <= j < cs.len() && a.available((#[trigger] cs[j]).dest) implies cs[i].priority
            < cs[j].priority || (cs[i].priority == cs[j].priority && i <= j) by {
            if j < i {
                let q = entry_of_choice(head, d, j);
                assert(open_entry(es, a, d, q));
            }
        }
        i
    } else {
        assert(open_entry(head, a, d, p));
        assert forall|q: int| #[trigger] open_entry(head, a, d, q) implies head[p].1.priority
            < head[q].1.priority || (head[p].1.priority == head[q].1.priority && p <= q) by {
            assert(open_entry(es, a, d, q));
        }
        let i = best_entry(head, a, d, p);
        if es[n].0 == d && a.available(es[n].1.dest) {
            assert(open_entry(es, a, d, n));
        }
        assert forall|j: int| 0 <= j < cs.len() && a.available((#[trigger] cs[j]).dest) implies cs[i].priority
            < cs[j].priority || (cs[i].priority == cs[j].priority && i <= j) by {
            if j < before.len() {
                assert(before[j] == cs[j]);
            }
        }
        i
    }
}

proof fn resolves_to_best(es: Seq<(u32, Choice)>, a: Availability, d: u32, p: int)
    requires
        !a.prohibited.contains(d),
        open_entry(es, a, d, p),
        forall|q: int| #[trigger]
            open_entry(es, a, d, q) ==> es[p].1.priority < es[q].1.priority || (es[p].1.priority
                == es[q].1.priority && p <= q),
    ensures
        best_egress(routes_to(es, d), a, d) == Some(es[p].1.dest),
{
    let cs = routes_to(es, d);
    let i = best_entry(es, a, d, p);
    let j = choose|j: int| is_best(cs, a, j);
    best_unique(cs, a, i, j);
}

proof fn route_place(rs: Seq<Mtp3Route>, n: int, i: int)
    requires
        0 <= i < n <= rs.len(),
        route_egress(rs[i]) is Some,
    ensures
        explicit_entries(rs, i).len() < explicit_entries(rs, n).len(),
        explicit_entries(rs, n)[explicit_entries(rs, i).len() as int] == (
            rs[i].dpc.0,
            Choice { dest: route_egress(rs[i])->Some_0, priority: rs[i].priority },
        ),
    decreases n,
{
    if i < n - 1 {
        route_place(rs, n - 1, i);
    }
}

proof fn route_of_entry(rs: Seq<Mtp3Route>, n: int, at: int) -> (i: int)
    requires
        0 <= n <= rs.len(),
        0 <= at < explicit_entries(rs, n).len(),
    ensures
        0 <= i < n,
        route_egress(rs[i]) is Some,
        at == explicit_entries(rs, i).len(),
    decreases n,
{
    if route_egress(rs[n - 1]) is Some && at == explicit_entries(rs, n).len() - 1 {
        n - 1
    } else {
        route_of_entry(rs, n - 1, at)
    }
}

proof fn places_grow(rs: Seq<Mtp3Route>, i: int, j: int)
    requires
        0 <= i <= j <= rs.len(),
    ensures
        explicit_entries(rs, i).len() <= explicit_entries(rs, j).len(),
    decreases j,
{
    if i < j {
        places_grow(rs, i, j - 1);
    }
}

proof fn no_neighbour_entry(t: &Tenant, assocs: Seq<Association>, d: u32, at: int)
    requires
        !neighbour(t, assocs, d),
        0 <= at < adjacent_entries(assocs, t.linksets@, t.linksets@.len() as int).len(),
    ensures
        adjacent_entries(assocs, t.linksets@, t.linksets@.len() as int)[at].0 != d,
{
    let es = adjacent_entries(assocs, t.linksets@, t.linksets@.len() as int);
    if es[at].0 == d {
        let j = linkset_of_entry(assocs, t.linksets@, t.linksets@.len() as int, at);
        let off = at - adjacent_entries(assocs, t.linksets@, j).len();
        let l = t.linksets@[j];
        let k = link_entry_from(assocs, l, l.links@.len() as int, off);
        let id = l.links@[k].assoc@;
        adjacent_is_last(assocs, id);
        let x = choose|x: int| leads_last(assocs, id, x, d);
        assert(crate::mtp3::laws::linked(t, t.linksets@[j].links@[k].assoc@));
        assert(leads_last(assocs, id, x, d));
    }
}

/// A configured route decides by its configured priority: the table resolves a point
/// code that is neither prohibited nor a neighbour's to the route to it in service of
/// the least priority number, and to the one configured first among equals. The route
/// leads over its Application Server, or over its linkset if it names none.
pub proof fn law_least_configured_priority_wins(
    r: RouteResolver,
    t: &Tenant,
    assocs: Seq<Association>,
    a: Availability,
    d: u32,
    k: int,
)
    requires
        r.built_from(t, assocs),
        !a.prohibited.contains(d),
        !neighbour(t, assocs, d),
        0 <= k < t.mtp3_routes@.len(),
        serves(t.mtp3_routes@[k], a, d),
        forall|j: int|
            0 <= j < t.mtp3_routes@.len() && serves(#[trigger] t.mtp3_routes@[j], a, d)
                ==> t.mtp3_routes@[k].priority < t.mtp3_routes@[j].priority || (
            t.mtp3_routes@[k].priority == t.mtp3_routes@[j].priority && k <= j),
    ensures
        t.mtp3_routes@[k].as_ matches Some(n) ==> r.resolved_to(d, a) == Some(
            Egress::ApplicationServer(n@),
        ),
        t.mtp3_routes@[k].as_ is None ==> (t.mtp3_routes@[k].linkset matches Some(l)
            && r.resolved_to(d, a) == Some(Egress::Linkset(l@))),
{
    let rs = t.mtp3_routes@;
    let n = rs.len() as int;
    let es = all_entries(t, assocs);
    let near = adjacent_entries(assocs, t.linksets@, t.linksets@.len() as int);
    route_place(rs, n, k);
    let p: int = near.len() as int + explicit_entries(rs, k).len();
    assert(es[p] == explicit_entries(rs, n)[explicit_entries(rs, k).len() as int]);
    assert(open_entry(es, a, d, p));
    assert forall|q: int| #[trigger] open_entry(es, a, d, q) implies es[p].1.priority
        < es[q].1.priority || (es[p].1.priority == es[q].1.priority && p <= q) by {
        if q < near.len() {
            no_neighbour_entry(t, assocs, d, q);
            assert(es[q] == near[q]);
        } else {
            let j = route_of_entry(rs, n, q - near.len());
            route_place(rs, n, j);
            assert(es[q] == explicit_entries(rs, n)[q - near.len()]);
            assert(serves(rs[j], a, d));
            if k <= j {
                places_grow(rs, k, j);
            }
        }
    }
    resolves_to_best(es, a, d, p);
    assert(r.candidates(d) == routes_to(es, d));
}

/// A point code that is no neighbour's and that no configured route in service leads to
/// does not resolve.
pub proof fn law_nothing_in_service_nothing_resolved(
    r: RouteResolver,
    t: &Tenant,
    assocs: Seq<Association>,
    a: Availability,
    d: u32,
)
    requires
        r.built_from(t, assocs),
        !neighbour(t, assocs, d),
        forall|j: int|
            0 <= j < t.mtp3_routes@.len() ==> !serves(#[trigger] t.mtp3_routes@[j], a, d),
    ensures
        r.resolved_to(d, a) is None,
{
    let rs = t.mtp3_routes@;
    let n = rs.len() as int;
    let es = all_entries(t, assocs);
    let near = adjacent_entries(assocs, t.linksets@, t.linksets@.len() as int);
    let cs = routes_to(es, d);
    assert(r.candidates(d) == cs);
    if exists|i: int| is_best(cs, a, i) {
        let i = choose|i: int| is_best(cs, a, i);
        let q = entry_of_choice(es, d, i);
        if q < near.len() {
            no_neighbour_entry(t, assocs, d, q);
            assert(es[q] == near[q]);
        } else {
            let j = route_of_entry(rs, n, q - near.len());
            route_place(rs, n, j);
            assert(es[q] == explicit_entries(rs, n)[q - near.len()]);
            assert(serves(rs[j], a, d));
        }
    }
}

/// A prohibited point code does not resolve, whatever is in service.
pub proof fn law_prohibited_does_not_resolve(r: RouteResolver, a: Availability, d: u32)
    requires
        a.prohibited.contains(d),
    ensures
        r.resolved_to(d, a) is None,
{
}

proof fn linkset_of_entry(assocs: Seq<Association>, ls: Seq<Linkset>, n: int, at: int) -> (j: int)
    requires
        0 <= n <= ls.len(),
        0 <= at < adjacent_entries(assocs, ls, n).len(),
    ensures
        0 <= j < n,
        adjacent_entries(assocs, ls, j).len() <= at < adjacent_entries(assocs, ls, j + 1).len(),
        adjacent_entries(assocs, ls, n)[at] == link_entries(
            assocs,
            ls[j],
            ls[j].links@.len() as int,
        )[at - adjacent_entries(assocs, ls, j).len()],
    decreases n,
{
    if at < adjacent_entries(assocs, ls, n - 1).len() {
        linkset_of_entry(assocs, ls, n - 1, at)
    } else {
        n - 1
    }
}

proof fn linkset_places_grow(assocs: Seq<Association>, ls: Seq<Linkset>, i: int, j: int)
    requires
        0 <= i <= j <= ls.len(),
    ensures
        adjacent_entries(assocs, ls, i).len() <= adjacent_entries(assocs, ls, j).len(),
        forall|q: int|
            0 <= q < adjacent_entries(assocs, ls, i).len() ==> adjacent_entries(assocs, ls, j)[q]
                == #[trigger] adjacent_entries(assocs, ls, i)[q],
    decreases j,
{
    if i < j {
        linkset_places_grow(assocs, ls, i, j - 1);
    }
}

proof fn link_entry_place(assocs: Seq<Association>, l: Linkset, n: int, k: int, d: u32) -> (at: int)
    requires
        0 <= k < n <= l.links@.len(),
        adjacent_of(assocs, l.links@[k].assoc@) == Some(d),
    ensures
        0 <= at < link_entries(assocs, l, n).len(),
        link_entries(assocs, l, n)[at].0 == d,
    decreases n,
{
    if n - 1 == k {
        link_entries(assocs, l, n).len() - 1
    } else {
        link_entry_place(assocs, l, n - 1, k, d)
    }
}

proof fn link_entry_is_first_choice(assocs: Seq<Association>, l: Linkset, n: int, at: int)
    requires
        0 <= n <= l.links@.len(),
        0 <= at < link_entries(assocs, l, n).len(),
    ensures
        link_entries(assocs, l, n)[at].1 == (Choice {
            dest: Egress::Linkset(l.name@),
            priority: 0,
        }),
    decreases n,
{
    if at < link_entries(assocs, l, n - 1).len() {
        link_entry_is_first_choice(assocs, l, n - 1, at);
    }
}

proof fn first_open(es: Seq<(u32, Choice)>, a: Availability, d: u32, w: int) -> (p: int)
    requires
        open_entry(es, a, d, w),
    ensures
        open_entry(es, a, d, p),
        p <= w,
        forall|q: int| #[trigger] open_entry(es, a, d, q) ==> p <= q,
    decreases w,
{
    if exists|q: int| #[trigger] open_entry(es, a, d, q) && q < w {
        let q = choose|q: int| #[trigger] open_entry(es, a, d, q) && q < w;
        first_open(es, a, d, q)
    } else {
        w
    }
}

proof fn one_neighbour(assocs: Seq<Association>, id: Seq<char>, x: int, d: u32)
    requires
        leads_last(assocs, id, x, d),
    ensures
        adjacent_of(assocs, id) == Some(d),
{
    adjacent_is_last(assocs, id);
    assert(crate::mtp3::laws::leads(assocs[x]));
    match adjacent_of(assocs, id) {
        Some(e) => {
            let c = choose|c: int| leads_last(assocs, id, c, e);
            assert(crate::mtp3::laws::leads(assocs[c]));
            assert(x == c);
        },
        None => {},
    }
}

/// A neighbour is reached over the first linkset in service with a link to it, before
/// every configured route, whatever priority that has.
pub proof fn law_neighbour_is_reached_directly(
    r: RouteResolver,
    t: &Tenant,
    assocs: Seq<Association>,
    a: Availability,
    d: u32,
    i: int,
)
    requires
        r.built_from(t, assocs),
        !a.prohibited.contains(d),
        0 <= i < t.linksets@.len(),
        links_to(t.linksets@[i], assocs, a, d),
        forall|j: int| 0 <= j < i ==> !links_to(#[trigger] t.linksets@[j], assocs, a, d),
    ensures
        r.resolved_to(d, a) == Some(Egress::Linkset(t.linksets@[i].name@)),
{
    let ls = t.linksets@;
    let n = ls.len() as int;
    let es = all_entries(t, assocs);
    let near = adjacent_entries(assocs, ls, n);
    let l = ls[i];
    let (k, x) = choose|k: int, x: int|
        0 <= k < l.links@.len() && #[trigger] leads_last(assocs, l.links@[k].assoc@, x, d);
    one_neighbour(assocs, l.links@[k].assoc@, x, d);
    let off = link_entry_place(assocs, l, l.links@.len() as int, k, d);
    link_entry_is_first_choice(assocs, l, l.links@.len() as int, off);
    let w: int = adjacent_entries(assocs, ls, i).len() + off;
    linkset_places_grow(assocs, ls, i + 1, n);
    assert(near[w] == adjacent_entries(assocs, ls, i + 1)[w]);
    assert(es[w] == near[w]);
    assert(open_entry(es, a, d, w));
    let p = first_open(es, a, d, w);
    assert(es[p] == near[p]);
    let j = linkset_of_entry(assocs, ls, n, p);
    let m = ls[j];
    let at = p - adjacent_entries(assocs, ls, j).len();
    link_entry_is_first_choice(assocs, m, m.links@.len() as int, at);
    let h = link_entry_from(assocs, m, m.links@.len() as int, at);
    adjacent_is_last(assocs, m.links@[h].assoc@);
    let y = choose|y: int| leads_last(assocs, m.links@[h].assoc@, y, d);
    assert(leads_last(assocs, m.links@[h].assoc@, y, d));
    assert(links_to(m, assocs, a, d));
    if j > i {
        linkset_places_grow(assocs, ls, i + 1, j);
    }
    assert(j == i);
    resolves_to_best(es, a, d, p);
    assert(r.candidates(d) == routes_to(es, d));
}

/// A resume makes a point code allowed again and clears its congestion; a pause leaves
/// its congestion level as it was.
pub proof fn law_resume_clears_congestion(a: Availability, pc: PointCode)
    ensures
        !a.after(Mtp3Event::Resume { affected: pc }).prohibited.contains(pc.value),
        a.after(Mtp3Event::Resume { affected: pc }).level(pc.value) == 0,
        a.after(Mtp3Event::Pause { affected: pc }).level(pc.value) == a.level(pc.value),
{
}

/// A table is of its tenant's variant.
pub proof fn law_table_is_of_its_variant(r: RouteResolver, t: &Tenant, assocs: Seq<Association>)
    requires
        r.built_from(t, assocs),
    ensures
        r.var() == t.variant,
{
}

/// A route that is added is one of the routes to its point code from then on, after those
/// that were there; it is not added again, and no other point code's routes change.
pub proof fn law_added_route_comes_last(
    after: RouteResolver,
    before: RouteResolver,
    d: u32,
    c: Choice,
    other: u32,
)
    requires
        after.adds_to(before, d, c),
    ensures
        after.candidates(d).contains(c),
        before.candidates(d).is_prefix_of(after.candidates(d)),
        before.candidates(d).contains(c) ==> after.candidates(d) == before.candidates(d),
        !before.candidates(d).contains(c) ==> after.candidates(d).len() == before.candidates(
            d,
        ).len() + 1 && after.candidates(d).last() == c,
        other != d ==> after.candidates(other) == before.candidates(other),
{
    let a = after.candidates(d);
    let b = before.candidates(d);
    if !b.contains(c) {
        assert(a == b.push(c));
        assert(a[b.len() as int] == c);
    }
    assert(b.is_prefix_of(a));
}

} // verus!
