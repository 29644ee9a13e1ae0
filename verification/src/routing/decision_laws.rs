//! What a routing decision is, stated on the tables and on the message itself.
use crate::config::{GroupMode, RouteTarget};
use crate::content::engine::{Action, ContentEngine};
use crate::content::laws::{fits_view, law_first_fitting_rule_decides};
use crate::content::laws::law_no_fitting_rule_no_decision;
use crate::content::view::MapView;
use crate::metrics::{count_at, next, GttError, GttResultKind, Metrics};
use crate::mtp3::route::{Availability, Mtp3Event};
use crate::point_code::Variant;
use crate::routing::{
    converted, counted, decision_for, decision_in, destination,
    error_counted, event_counted, first_reachable, gauges_refreshed, groups_after, hit_counted,
    kind_counted, resolved_target, rewrite_for, rewrite_in, routed, state_became, Arrival, Decision,
    Inbound, Router,
};
use crate::sccp::convert::to_e164;
use crate::sccp::gtt::{GroupState, GttSelector, Title};
use crate::sccp::title_laws::{fits_title, law_first_fitting_rule_translates};
use crate::sccp::title_laws::law_unmatched_title_translates_to_nothing;
use crate::tenant::{Runtimes, TenantRuntime};
use vstd::prelude::*;
use vstd::string::*;

verus! {

/// A point code leads where the routes say, if it fits the tenant's variant: 14 bits in
/// the international one, 24 bits in the others.
pub proof fn law_destination_fits_the_variant(rt: &TenantRuntime, dpc: u32)
    ensures
        rt.variant == Variant::Itu && dpc > 0x3FFF ==> destination(rt, dpc) is None,
        dpc > 0xFF_FFFF ==> destination(rt, dpc) is None,
        dpc <= 0x3FFF || (rt.variant != Variant::Itu && dpc <= 0xFF_FFFF) ==> destination(rt, dpc)
            == rt.routes.resolved_to(dpc, rt.route_state@),
{
}

/// A target with nothing to go to: a group that is unknown or empty, or no field at all.
pub open spec fn leads_nowhere(rt: &TenantRuntime, to: RouteTarget) -> bool {
    &&& to.tenant is None
    &&& to.local != Some(true)
    &&& to.group matches Some(g) ==> !(rt.gtt.group_map().contains_key(g@)
        && rt.gtt.group_map()[g@].members@.len() > 0)
    &&& to.group is None ==> to.dpc is None
}

/// An address is reached over what its point code resolves to, or over nothing.
pub open spec fn goes_to(rt: &TenantRuntime, dpc: u32, ssn: u8, d: Decision) -> bool {
    d is RouteTo && d->RouteTo_dpc == dpc && d->RouteTo_ssn == ssn && d->RouteTo_via
        == destination(rt, dpc)
}

/// A decision follows a target: a tenant comes first, then local termination, then a
/// group, then the point code. A cost group gives its first member with a route, and its
/// first member where none has one; a share group gives the member whose turn it is.
pub open spec fn follows(ts: Runtimes, rt: &TenantRuntime, to: RouteTarget, d: Decision) -> bool {
    &&& to.tenant matches Some(n) ==> {
        &&& d is CrossTenant && d->tenant == n@
        &&& d->CrossTenant_dpc == (match to.dpc {
            Some(p) => p.0,
            None => 0,
        })
        &&& d->CrossTenant_ssn == (match to.ssn {
            Some(s) => s,
            None => 0,
        })
        &&& d->conversion <==> ts.contains_key(rt.id@) && ts.contains_key(n@) && ts[rt.id@].variant
            != ts[n@].variant
    }
    &&& to.tenant is None && to.local == Some(true) ==> d == Decision::Local
    &&& to.tenant is None && to.local != Some(true) && to.group is Some ==> {
        let g = rt.gtt.group_map()[to.group->Some_0@];
        let ms = g.members@;
        &&& g.mode == GroupMode::Share ==> goes_to(
            rt,
            ms[g.cursor as int % ms.len() as int].0,
            ms[g.cursor as int % ms.len() as int].1,
            d,
        )
        &&& g.mode == GroupMode::Cost ==> {
            ||| exists|i: int|
                #![trigger ms[i]]
                0 <= i < ms.len() && destination(rt, ms[i].0) is Some && goes_to(
                    rt,
                    ms[i].0,
                    ms[i].1,
                    d,
                ) && forall|j: int| 0 <= j < i ==> destination(rt, (#[trigger] ms[j]).0) is None
            ||| goes_to(rt, ms[0].0, ms[0].1, d) && forall|j: int|
                0 <= j < ms.len() ==> destination(rt, (#[trigger] ms[j]).0) is None
        }
    }
    &&& to.tenant is None && to.local != Some(true) && to.group is None ==> to.dpc is Some
        && goes_to(
        rt,
        to.dpc->Some_0.0,
        match to.ssn {
            Some(s) => s,
            None => 0,
        },
        d,
    )
}

proof fn reachable_is_first(rt: &TenantRuntime, ms: Seq<(u32, u8)>, from: int)
    requires
        0 <= from,
    ensures
        first_reachable(rt, ms, from) matches Some(a) ==> exists|i: int|
            #![trigger ms[i]]
            from <= i < ms.len() && ms[i] == a && destination(rt, a.0) is Some && forall|j: int|
                from <= j < i ==> destination(rt, (#[trigger] ms[j]).0) is None,
        first_reachable(rt, ms, from) is None ==> forall|j: int|
            from <= j < ms.len() ==> destination(rt, (#[trigger] ms[j]).0) is None,
    decreases ms.len() - from,
{
    if from < ms.len() {
        if destination(rt, ms[from].0) is Some {
            assert(ms[from] == first_reachable(rt, ms, from)->Some_0);
        } else {
            reachable_is_first(rt, ms, from + 1);
            if first_reachable(rt, ms, from + 1) is Some {
                let a = first_reachable(rt, ms, from + 1)->Some_0;
                let i = choose|i: int|
                    #![trigger ms[i]]
                    from + 1 <= i < ms.len() && ms[i] == a && destination(rt, a.0) is Some
                        && forall|j: int|
                        from + 1 <= j < i ==> destination(rt, (#[trigger] ms[j]).0) is None;
                assert(ms[i] == a);
            }
        }
    }
}

proof fn target_is_followed(ts: Runtimes, rt: &TenantRuntime, to: RouteTarget)
    ensures
        resolved_target(rt, to) is None <==> leads_nowhere(rt, to),
        resolved_target(rt, to) matches Some(r) ==> follows(
            ts,
            rt,
            to,
            crate::routing::of_translation(ts, rt, r),
        ),
{
    if to.tenant is None && to.local != Some(true) && to.group is Some {
        let name = to.group->Some_0@;
        if rt.gtt.group_map().contains_key(name) {
            let ms = rt.gtt.group_map()[name].members@;
            reachable_is_first(rt, ms, 0);
            if ms.len() > 0 && rt.gtt.group_map()[name].mode == GroupMode::Cost {
                let d = crate::routing::of_translation(ts, rt, resolved_target(rt, to)->Some_0);
                match first_reachable(rt, ms, 0) {
                    Some(a) => {
                        let i = choose|i: int|
                            #![trigger ms[i]]
                            0 <= i < ms.len() && ms[i] == a && destination(rt, a.0) is Some
                                && forall|j: int|
                                0 <= j < i ==> destination(rt, (#[trigger] ms[j]).0) is None;
                        assert(goes_to(rt, ms[i].0, ms[i].1, d));
                    },
                    None => {
                        assert(goes_to(rt, ms[0].0, ms[0].1, d));
                    },
                }
            }
        }
    }
}

/// A target that falls to a group moves that group on by one place, in share mode, and no
/// other; every other target moves none.
pub open spec fn moves_its_group(
    rt: &TenantRuntime,
    to: RouteTarget,
    after: Map<Seq<char>, GroupState>,
) -> bool {
    let before = rt.gtt.group_map();
    let falls = to.tenant is None && to.local != Some(true) && to.group is Some;
    &&& after.dom() == before.dom()
    &&& forall|n: Seq<char>|
        before.contains_key(n) && !(falls && to.group->Some_0@ == n) ==> #[trigger] after[n]
            == before[n]
    &&& falls && before.contains_key(to.group->Some_0@) ==> {
        let g = before[to.group->Some_0@];
        let h = after[to.group->Some_0@];
        &&& h.mode == g.mode && h.members == g.members
        &&& g.mode == GroupMode::Cost ==> h.cursor == g.cursor
        &&& g.mode == GroupMode::Share && g.members@.len() > 0 && g.cursor < usize::MAX ==> h.cursor
            == g.cursor + 1
    }
}

/// Nothing is decided by content: there are no content rules, the message has no view, or
/// no rule fits it.
pub open spec fn no_content(rt: &TenantRuntime, msg: Inbound) -> bool {
    rt.content matches Some(e) ==> (msg.view matches Some(v) ==> forall|j: int|
        0 <= j < e.rule_list().len() ==> !fits_view(
            #[trigger] e.rule_list()[j],
            e.imsis(),
            e.addresses(),
            v,
        ))
}

proof fn no_content_no_hit(rt: &TenantRuntime, msg: Inbound)
    requires
        no_content(rt, msg),
    ensures
        crate::routing::content_hit(rt, msg@) is None,
{
    if rt.content is Some && msg.view is Some {
        law_no_fitting_rule_no_decision(rt.content->Some_0, msg.view->Some_0);
    }
}

/// A message for our point code with a called title that no content rule decides goes
/// where the first translation rule that fits the title leads; it is dropped where that
/// rule leads nowhere. Titles in the E.214 numbering plan are left out here.
pub proof fn law_title_decides(
    ts: Runtimes,
    rt: &TenantRuntime,
    msg: Inbound,
    sel: GttSelector,
    i: int,
)
    requires
        msg.dpc == rt.point_code,
        msg.cdpa == Some(sel),
        no_content(rt, msg),
        sel.np != Some(3u8),
        0 <= i < rt.gtt.rule_list().len(),
        fits_title(rt.gtt.rule_list()[i].match_, sel),
        forall|j: int| 0 <= j < i ==> !fits_title((#[trigger] rt.gtt.rule_list()[j]).match_, sel),
    ensures
        leads_nowhere(rt, rt.gtt.rule_list()[i].to) ==> decision_for(ts, rt, msg@) is Drop,
        !leads_nowhere(rt, rt.gtt.rule_list()[i].to) ==> follows(
            ts,
            rt,
            rt.gtt.rule_list()[i].to,
            decision_for(ts, rt, msg@),
        ),
        rewrite_for(rt, msg@) is None,
        groups_after(rt, msg@) == rt.gtt.groups_after(sel@),
{
    no_content_no_hit(rt, msg);
    law_first_fitting_rule_translates(rt.gtt, sel, i);
    target_is_followed(ts, rt, rt.gtt.rule_list()[i].to);
}

/// A message for our point code with a called title that neither a content rule nor a
/// translation rule fits is dropped.
pub proof fn law_untranslated_title_is_dropped(
    ts: Runtimes,
    rt: &TenantRuntime,
    msg: Inbound,
    sel: GttSelector,
)
    requires
        msg.dpc == rt.point_code,
        msg.cdpa == Some(sel),
        no_content(rt, msg),
        sel.np != Some(3u8),
        forall|j: int|
            0 <= j < rt.gtt.rule_list().len() ==> !fits_title(
                (#[trigger] rt.gtt.rule_list()[j]).match_,
                sel,
            ),
    ensures
        decision_for(ts, rt, msg@) is Drop,
        groups_after(rt, msg@) == rt.gtt.group_map(),
        error_counted(rt, msg@) == Some(GttError::NoTranslation),
        kind_counted(rt, msg@) is None,
{
    no_content_no_hit(rt, msg);
    law_unmatched_title_translates_to_nothing(rt.gtt, sel);
}

/// A title in the E.214 numbering plan is decided as the E.164 title that it converts to,
/// and as it is where it does not convert.
pub proof fn law_e214_title_is_converted_first(
    ts: Runtimes,
    rt: &TenantRuntime,
    msg: Inbound,
    sel: GttSelector,
    other: Arrival,
    digits: Seq<char>,
)
    requires
        msg.dpc == rt.point_code,
        msg.cdpa == Some(sel),
        no_content(rt, msg),
        sel.np == Some(3u8),
        to_e164(rt.converter.table(), sel.digits@) == Some(digits),
        other.dpc == msg.dpc,
        other.called_ssn == msg.called_ssn,
        other.view is None,
        other.cdpa == Some(
            (Title { digits, gti: sel.gti, tt: sel.tt, np: Some(1u8), nai: sel.nai }),
        ),
    ensures
        decision_for(ts, rt, msg@) == decision_for(ts, rt, other),
        groups_after(rt, msg@) == groups_after(rt, other),
{
    no_content_no_hit(rt, msg);
}

/// A title that does not convert is translated as it is, in whatever numbering plan.
pub proof fn law_unconverted_title_is_kept(rt: &TenantRuntime, t: Title)
    requires
        to_e164(rt.converter.table(), t.digits) is None,
    ensures
        converted(rt, t) == t,
{
}

/// Content rule `j` is the first that fits a message.
pub open spec fn content_decides(e: ContentEngine, v: MapView, j: int) -> bool {
    &&& 0 <= j < e.rule_list().len()
    &&& fits_view(e.rule_list()[j], e.imsis(), e.addresses(), v)
    &&& forall|k: int|
        0 <= k < j ==> !fits_view(#[trigger] e.rule_list()[k], e.imsis(), e.addresses(), v)
}

/// A message for our point code with a called title is decided by the first content rule
/// that fits it, before any translation: a screen drops it, a hook takes it, a route is
/// followed. A route that leads nowhere leaves it to translation, with the called digits
/// rewritten if the rule says so. The rewrite is the one done on forwarding.
pub proof fn law_content_rule_decides(
    ts: Runtimes,
    rt: &TenantRuntime,
    msg: Inbound,
    sel: GttSelector,
    e: ContentEngine,
    v: MapView,
    j: int,
)
    requires
        msg.dpc == rt.point_code,
        msg.cdpa == Some(sel),
        msg.view == Some(v),
        rt.content == Some(e),
        content_decides(e, v, j),
    ensures
        e.rule_list()[j].action is Screen ==> decision_for(ts, rt, msg@) is Drop,
        e.rule_list()[j].action is Python ==> decision_for(ts, rt, msg@) == (Decision::Python {
            hook: e.rule_list()[j].action->hook@,
        }),
        e.rule_list()[j].action is Route && !leads_nowhere(rt, e.rule_list()[j].action->target)
            ==> follows(ts, rt, e.rule_list()[j].action->target, decision_for(ts, rt, msg@)),
        e.rule_list()[j].action is Route && leads_nowhere(rt, e.rule_list()[j].action->target) && (
        e.rule_list()[j].action->rewrite_cdpa_gt matches Some(d)) ==> decision_for(ts, rt, msg@)
            == decision_for(
            ts,
            rt,
            Arrival {
                view: None,
                cdpa: Some(
                    Title {
                        digits: e.rule_list()[j].action->rewrite_cdpa_gt->Some_0@,
                        gti: sel.gti,
                        tt: sel.tt,
                        np: sel.np,
                        nai: sel.nai,
                    },
                ),
                ..msg@
            },
        ),
        e.rule_list()[j].action is Route && leads_nowhere(rt, e.rule_list()[j].action->target)
            && e.rule_list()[j].action->rewrite_cdpa_gt is None ==> decision_for(ts, rt, msg@)
            == decision_for(ts, rt, Arrival { view: None, ..msg@ }),
        e.rule_list()[j].action is Route && e.rule_list()[j].action->rewrite_cdpa_gt is Some
            ==> rewrite_for(rt, msg@) == Some(e.rule_list()[j].action->rewrite_cdpa_gt->Some_0@),
        !(e.rule_list()[j].action is Route) || e.rule_list()[j].action->rewrite_cdpa_gt is None
            ==> rewrite_for(rt, msg@) is None,
        !(e.rule_list()[j].action is Route) ==> groups_after(rt, msg@) == rt.gtt.group_map(),
        e.rule_list()[j].action is Route && !leads_nowhere(rt, e.rule_list()[j].action->target)
            ==> moves_its_group(rt, e.rule_list()[j].action->target, groups_after(rt, msg@)),
{
    law_first_fitting_rule_decides(e, v, j);
    assert(crate::routing::content_hit(rt, msg@) == Some(e.rule_list()[j]));
    if e.rule_list()[j].action is Route {
        target_is_followed(ts, rt, e.rule_list()[j].action->target);
        assert(groups_after(rt, msg@).dom() =~= rt.gtt.group_map().dom() || leads_nowhere(
            rt,
            e.rule_list()[j].action->target,
        ));
    }
}

/// A message for our point code without a called title ends here if we own its subsystem;
/// else, with no content rule for it, it is dropped, and refused as prohibited where it
/// names a subsystem.
pub proof fn law_subsystem_decides(ts: Runtimes, rt: &TenantRuntime, msg: Inbound)
    requires
        msg.dpc == rt.point_code,
        msg.cdpa is None,
    ensures
        msg.called_ssn is Some && rt.gtt.owned().contains(msg.called_ssn->Some_0) ==> decision_for(
            ts,
            rt,
            msg@,
        ) == Decision::Local && error_counted(rt, msg@) is None && kind_counted(rt, msg@) is None,
        no_content(rt, msg) && (msg.called_ssn is None || !rt.gtt.owned().contains(
            msg.called_ssn->Some_0,
        )) ==> decision_for(ts, rt, msg@) is Drop && kind_counted(rt, msg@) is None && (
        error_counted(rt, msg@) == Some(GttError::SsnProhibited) <==> msg.called_ssn is Some) && (
        msg.called_ssn is None ==> error_counted(rt, msg@) is None),
        rt.gtt.group_map() == groups_after(rt, msg@) || !no_content(rt, msg),
{
    if no_content(rt, msg) {
        no_content_no_hit(rt, msg);
    }
}

/// A message for another point code goes over what that point code resolves to, and is
/// dropped where it does not resolve. Nothing is rewritten and nothing is counted.
pub proof fn law_transit_goes_by_point_code(ts: Runtimes, rt: &TenantRuntime, msg: Inbound)
    requires
        msg.dpc != rt.point_code,
    ensures
        destination(rt, msg.dpc) matches Some(via) ==> decision_for(ts, rt, msg@) == (
        Decision::Route { via }),
        destination(rt, msg.dpc) is None ==> decision_for(ts, rt, msg@) is Drop,
        rewrite_for(rt, msg@) is None,
        hit_counted(rt, msg@) is None,
        kind_counted(rt, msg@) is None,
        error_counted(rt, msg@) is None,
{
}

/// A message is routed within the tenant that is asked for.
pub proof fn law_routed_in_its_tenant(ts: Runtimes, tenant: Seq<char>, msg: Arrival)
    requires
        ts.contains_key(tenant),
    ensures
        decision_in(ts, tenant, msg) == decision_for(ts, &ts[tenant], msg),
        rewrite_in(ts, tenant, msg) == rewrite_for(&ts[tenant], msg),
{
}

// ── What is counted ─────────────────────────────────────────────────────────

/// What is counted of a translation agrees with the decision: a hand-off counts as a
/// tenant, an address as a point code or a group, an end here as local; an address that
/// no route leads to counts as having no route.
pub proof fn law_counts_agree_with_decision(ts: Runtimes, rt: &TenantRuntime, msg: Arrival)
    ensures
        kind_counted(rt, msg) == Some(GttResultKind::Tenant) <==> decision_for(ts, rt, msg)
            is CrossTenant,
        kind_counted(rt, msg) == Some(GttResultKind::Dpc) || kind_counted(rt, msg) == Some(
            GttResultKind::Group,
        ) <==> decision_for(ts, rt, msg) is RouteTo,
        kind_counted(rt, msg) == Some(GttResultKind::Local) ==> decision_for(ts, rt, msg)
            == Decision::Local,
        error_counted(rt, msg) == Some(GttError::NoRoute) <==> decision_for(ts, rt, msg) is RouteTo
            && decision_for(ts, rt, msg)->RouteTo_via is None,
        error_counted(rt, msg) == Some(GttError::NoTranslation) ==> decision_for(ts, rt, msg)
            is Drop,
        error_counted(rt, msg) == Some(GttError::SsnProhibited) ==> decision_for(ts, rt, msg)
            is Drop,
{
}

/// A hit is counted once under the rule's name and what the rule does: `rewrite` for a
/// route that rewrites, else `route`, `screen` or `python`.
pub proof fn law_hit_is_counted_by_name(
    rt: &TenantRuntime,
    msg: Inbound,
    sel: GttSelector,
    e: ContentEngine,
    v: MapView,
    j: int,
)
    requires
        msg.dpc == rt.point_code,
        msg.cdpa == Some(sel),
        msg.view == Some(v),
        rt.content == Some(e),
        content_decides(e, v, j),
    ensures
        hit_counted(rt, msg@) is Some,
        hit_counted(rt, msg@)->Some_0.0 == e.rule_list()[j].name@,
        e.rule_list()[j].action is Screen ==> hit_counted(rt, msg@)->Some_0.1 == "screen"@,
        e.rule_list()[j].action is Python ==> hit_counted(rt, msg@)->Some_0.1 == "python"@,
        e.rule_list()[j].action is Route && e.rule_list()[j].action->rewrite_cdpa_gt is Some
            ==> hit_counted(rt, msg@)->Some_0.1 == "rewrite"@,
        e.rule_list()[j].action is Route && e.rule_list()[j].action->rewrite_cdpa_gt is None
            ==> hit_counted(rt, msg@)->Some_0.1 == "route"@,
{
    law_first_fitting_rule_decides(e, v, j);
}

/// Each count moves by one, in its own cell, and no other cell moves.
pub proof fn law_counts_move_by_one(
    before: Metrics,
    after: Metrics,
    hit: Option<(Seq<char>, Seq<char>)>,
    kind: Option<GttResultKind>,
    error: Option<GttError>,
    i: int,
    k: (Seq<char>, Seq<char>),
)
    requires
        counted(before, after, hit, kind, error),
        before.translations@.len() == 4,
        before.errors@.len() == 3,
    ensures
        0 <= i < 4 ==> after.translations@[i] == if (kind == Some(GttResultKind::Local) && i == 0)
            || (kind == Some(GttResultKind::Dpc) && i == 1) || (kind == Some(GttResultKind::Group)
            && i == 2) || (kind == Some(GttResultKind::Tenant) && i == 3) {
            next(before.translations@[i])
        } else {
            before.translations@[i]
        },
        0 <= i < 3 ==> after.errors@[i] == if (error == Some(GttError::NoTranslation) && i == 0) || (
        error == Some(GttError::SsnProhibited) && i == 1) || (error == Some(GttError::NoRoute) && i
            == 2) {
            next(before.errors@[i])
        } else {
            before.errors@[i]
        },
        count_at(after.rule_hits@, k) == if hit == Some(k) {
            next(count_at(before.rule_hits@, k))
        } else {
            count_at(before.rule_hits@, k)
        },
        after.loops == before.loops,
        after.screened == before.screened,
        after.msu_rx == before.msu_rx,
        after.msu_tx == before.msu_tx,
        after.active == before.active,
        after.abort_counts == before.abort_counts,
        after.route_available == before.route_available,
{
}

/// A message that is routed moves only groups of its own tenant, as its decision does; in
/// an unknown tenant nothing moves and nothing is counted.
pub proof fn law_routing_moves_groups_only(
    before: Router,
    after: Router,
    m: Metrics,
    n: Metrics,
    tenant: Seq<char>,
    msg: Arrival,
    other: Seq<char>,
)
    requires
        routed(before, after, m, n, tenant, msg),
    ensures
        !before.runtimes().contains_key(tenant) ==> after == before && n == m,
        other != tenant && before.runtimes().contains_key(other) ==> after.runtimes().contains_key(
            other,
        ) && after.runtimes()[other] == before.runtimes()[other],
        before.runtimes().contains_key(tenant) ==> {
            let a = after.runtimes()[tenant];
            let b = before.runtimes()[tenant];
            &&& after.runtimes().contains_key(tenant)
            &&& a.gtt.group_map() == groups_after(&b, msg)
            &&& a.gtt.rule_list() == b.gtt.rule_list()
            &&& a.gtt.owned() == b.gtt.owned()
            &&& a.routes == b.routes && a.route_state == b.route_state && a.content == b.content
            &&& a.isup == b.isup && a.converter == b.converter && a.point_code == b.point_code
            &&& counted(m, n, hit_counted(&b, msg), kind_counted(&b, msg), error_counted(&b, msg))
        },
{
}

/// A counter counts by one, and starts over only after its last value.
pub proof fn law_counter_counts_by_one(n: u64)
    ensures
        n < u64::MAX ==> next(n) == n + 1,
        next(u64::MAX) == 0,
{
}

/// After a refresh the gauge of every point code that has a route shows whether it
/// resolves, and the others are as they were.
pub proof fn law_route_gauge_shows_reachability(
    rt: &TenantRuntime,
    before: Map<u32, i64>,
    after: Map<u32, i64>,
    d: u32,
)
    requires
        gauges_refreshed(rt, before, after),
    ensures
        rt.routes.candidates(d).len() > 0 ==> after.contains_key(d),
        rt.routes.candidates(d).len() > 0 && destination(rt, d) is Some ==> after[d] == 1,
        rt.routes.candidates(d).len() > 0 && destination(rt, d) is None ==> after[d] == 0,
        rt.routes.candidates(d).len() == 0 ==> (after.contains_key(d) <==> before.contains_key(d))
            && (before.contains_key(d) ==> after[d] == before[d]),
{
    if rt.routes.candidates(d).len() > 0 {
        assert(after.contains_key(d));
        assert(after[d] == crate::metrics::gauge(destination(rt, d) is Some));
    }
}

/// A management event is counted once, under its point code and its kind; a transfer is
/// not counted.
pub proof fn law_event_is_counted(
    events: Map<(u32, Seq<char>), u64>,
    event: Mtp3Event,
    k: (u32, Seq<char>),
)
    ensures
        event is Transfer ==> event_counted(events, event) == events,
        event matches Mtp3Event::Pause { affected } ==> count_at(event_counted(events, event), k)
            == if k == (affected.value, "pause"@) {
            next(count_at(events, k))
        } else {
            count_at(events, k)
        },
        event matches Mtp3Event::Resume { affected } ==> count_at(event_counted(events, event), k)
            == if k == (affected.value, "resume"@) {
            next(count_at(events, k))
        } else {
            count_at(events, k)
        },
        event matches Mtp3Event::Status { affected, status } ==> count_at(
            event_counted(events, event),
            k,
        ) == if k == (affected.value, "congestion"@) {
            next(count_at(events, k))
        } else {
            count_at(events, k)
        },
{
}

/// What changes one tenant's availability changes nothing else: not its tables, and no
/// other tenant. An unknown tenant changes nothing.
pub proof fn law_availability_is_by_tenant(
    before: Runtimes,
    after: Runtimes,
    tenant: Seq<char>,
    state: Availability,
    other: Seq<char>,
)
    requires
        state_became(before, after, tenant, state),
        before.contains_key(other),
    ensures
        after.contains_key(other),
        other != tenant ==> after[other] == before[other],
        other == tenant ==> after[other].route_state@ == state,
        after[other].gtt == before[other].gtt,
        after[other].routes == before[other].routes,
        after[other].content == before[other].content,
        after[other].isup == before[other].isup,
        after[other].converter == before[other].converter,
        after[other].point_code == before[other].point_code,
        after[other].variant == before[other].variant,
        after[other].id == before[other].id,
{
}

} // verus!
