//! The routing decision: MTP3 transfer, content routing and global-title
//! translation folded into one answer per inbound message.
//!
//! A message for a point code that is not ours transits by its point code. One
//! for us is decided by the content rules first, when a decoded view is there;
//! then by translating the called global title, after the E.214 conversion; and
//! last by its subsystem number.
pub mod decision_laws;
pub mod laws;

use crate::config::{ni_bits, Config, GroupMode, RouteTarget, DEFAULT_TENANT};
use crate::content::engine::CompiledRule;
use crate::content::view::{text_of, MapView, ViewModel};
use crate::content::Action;
use crate::isup::IsupScreen;
use crate::metrics::{
    content_rule_hit, count_at, gauge, gtt_error, gtt_error_slot, gtt_result_slot, gtt_translation,
    mtp3mg_event, mtp3mg_label, next, set_route_available, GttError, GttResultKind, Metrics,
    Mtp3MgKind,
};
use crate::mtp3::route::{egress_of, Availability, Destination, Egress, Mtp3Event};
use crate::point_code::{largest, PointCode};
use crate::sccp::convert::to_e164;
use crate::sccp::gtt::{
    after_target, target_result, translated, GroupState, GttResult, GttSelector, Title, Translated,
};
use crate::tenant::{conversion_between, Runtimes, Tenancy, TenantRuntime};
use crate::text::{decimal, decimal_of, join2, join3};
use vstd::prelude::*;
use vstd::string::*;

verus! {

/// The decision about one inbound message.
#[derive(Clone, Debug, PartialEq, Eq)]
pub enum RouteDecision {
    /// Forward by point code.
    Route { via: Destination },
    /// Forward to a translated destination; `via` is its egress, if it has a
    /// route.
    RouteTo { dpc: u32, ssn: u8, via: Option<Destination> },
    /// Terminate locally.
    Local,
    /// Hand off to another routing domain.
    CrossTenant { tenant: String, dpc: u32, ssn: u8, conversion: bool },
    /// Defer to a named script hook.
    Python { hook: String },
    /// Drop, with the reason.
    Drop { reason: String },
}

/// What a [`RouteDecision`] says.
pub enum Decision {
    Route { via: Egress },
    RouteTo { dpc: u32, ssn: u8, via: Option<Egress> },
    Local,
    CrossTenant { tenant: Seq<char>, dpc: u32, ssn: u8, conversion: bool },
    Python { hook: Seq<char> },
    Drop { reason: Seq<char> },
}

impl View for RouteDecision {
    type V = Decision;

    open spec fn view(&self) -> Decision {
        match *self {
            RouteDecision::Route { via } => Decision::Route { via: via@ },
            RouteDecision::RouteTo { dpc, ssn, via } => Decision::RouteTo {
                dpc,
                ssn,
                via: egress_of(via),
            },
            RouteDecision::Local => Decision::Local,
            RouteDecision::CrossTenant {
                tenant,
                dpc,
                ssn,
                conversion,
            } => Decision::CrossTenant { tenant: tenant@, dpc, ssn, conversion },
            RouteDecision::Python { hook } => Decision::Python { hook: hook@ },
            RouteDecision::Drop { reason } => Decision::Drop { reason: reason@ },
        }
    }
}

/// An inbound message, decoded to what the router reads.
#[derive(Clone, Debug)]
pub struct Inbound {
    /// The destination point code.
    pub dpc: u32,
    /// The called global title, if the message routes on one.
    pub cdpa: Option<GttSelector>,
    /// The called subsystem number.
    pub called_ssn: Option<u8>,
    /// The decoded view for content routing.
    pub view: Option<MapView>,
}

/// What an [`Inbound`] message holds.
pub struct Arrival {
    pub dpc: u32,
    pub cdpa: Option<Title>,
    pub called_ssn: Option<u8>,
    pub view: Option<ViewModel>,
}

impl View for Inbound {
    type V = Arrival;

    open spec fn view(&self) -> Arrival {
        Arrival {
            dpc: self.dpc,
            cdpa: match self.cdpa {
                Some(s) => Some(s@),
                None => None,
            },
            called_ssn: self.called_ssn,
            view: match self.view {
                Some(v) => Some(v@),
                None => None,
            },
        }
    }
}

impl Default for Inbound {
    /// A message for point code 0 with nothing else.
    fn default() -> (r: Inbound)
        ensures
            r@ == (Arrival { dpc: 0, cdpa: None, called_ssn: None, view: None }),
    {
        Inbound { dpc: 0, cdpa: None, called_ssn: None, view: None }
    }
}

// ── The decision ────────────────────────────────────────────────────────────

/// The egress a point code resolves to within a tenant: none if it does not fit
/// the tenant's variant.
pub open spec fn destination(rt: &TenantRuntime, dpc: u32) -> Option<Egress> {
    if dpc <= largest(rt.variant) {
        rt.routes.resolved_to(dpc, rt.route_state@)
    } else {
        None
    }
}

/// The decision on a translation result.
pub open spec fn of_translation(ts: Runtimes, rt: &TenantRuntime, t: Translated) -> Decision {
    match t {
        Translated::Local => Decision::Local,
        Translated::Dpc { dpc, ssn } => Decision::RouteTo { dpc, ssn, via: destination(rt, dpc) },
        Translated::Tenant { tenant, dpc, ssn } => Decision::CrossTenant {
            tenant,
            dpc,
            ssn,
            conversion: conversion_between(ts, rt.id@, tenant) == Some(true),
        },
    }
}

/// The group that a target selects from, if it is one.
pub open spec fn group_of(t: RouteTarget) -> Option<Seq<char>> {
    if t.tenant is None && t.local != Some(true) {
        text_of(t.group)
    } else {
        None
    }
}

/// The first of some addresses, from an index on, whose point code is reachable
/// within a tenant.
pub open spec fn first_reachable(rt: &TenantRuntime, members: Seq<(u32, u8)>, from: int) -> Option<
    (u32, u8),
>
    decreases members.len() - from,
{
    if from < 0 || from >= members.len() {
        None
    } else if destination(rt, members[from].0) is Some {
        Some(members[from])
    } else {
        first_reachable(rt, members, from + 1)
    }
}

/// The member that a cost group gives while its availability is considered: the
/// cheapest that is reachable. None for a target that is not a cost group, and for
/// a group that has no reachable member.
pub open spec fn alternate(rt: &TenantRuntime, t: RouteTarget) -> Option<(u32, u8)> {
    match group_of(t) {
        Some(g) => if rt.gtt.group_map().contains_key(g) && rt.gtt.group_map()[g].mode
            == GroupMode::Cost {
            first_reachable(rt, rt.gtt.group_map()[g].members@, 0)
        } else {
            None
        },
        None => None,
    }
}

/// What a target resolves to within a tenant. A cost group fails over: its primary
/// stands back behind the cheapest member that is reachable.
pub open spec fn resolved_target(rt: &TenantRuntime, t: RouteTarget) -> Option<Translated> {
    match target_result(rt.gtt.group_map(), t) {
        Some(r) => match alternate(rt, t) {
            Some(a) => Some(Translated::Dpc { dpc: a.0, ssn: a.1 }),
            None => Some(r),
        },
        None => None,
    }
}

/// A called title after the E.214 conversion: numbering plan 3 marks an E.214
/// title, which becomes an E.164 one if its network is known.
pub open spec fn converted(rt: &TenantRuntime, t: Title) -> Title {
    if t.np == Some(3u8) {
        match to_e164(rt.converter.table(), t.digits) {
            Some(digits) => Title { digits, np: Some(1), ..t },
            None => t,
        }
    } else {
        t
    }
}

/// The content rule that decides about a message, if any.
pub open spec fn content_hit(rt: &TenantRuntime, msg: Arrival) -> Option<CompiledRule> {
    match (rt.content, msg.view) {
        (Some(engine), Some(v)) => engine.deciding_rule(v),
        _ => None,
    }
}

/// The called title after a content rule's rewrite: its digits replaced.
pub open spec fn rewritten(cdpa: Option<Title>, rewrite: Option<String>) -> Option<Title> {
    match (cdpa, rewrite) {
        (Some(t), Some(digits)) => Some(Title { digits: digits@, ..t }),
        _ => cdpa,
    }
}

/// The called title that translation sees: rewritten if the deciding content rule
/// says so.
pub open spec fn title_for_translation(rt: &TenantRuntime, msg: Arrival) -> Option<Title> {
    match content_hit(rt, msg) {
        Some(rule) => match rule.action {
            Action::Route { target, rewrite_cdpa_gt } => rewritten(msg.cdpa, rewrite_cdpa_gt),
            _ => msg.cdpa,
        },
        None => msg.cdpa,
    }
}

/// The digits that the deciding content rule puts into the called title of a
/// message that goes on, if it does.
pub open spec fn rewrite_for(rt: &TenantRuntime, msg: Arrival) -> Option<Seq<char>> {
    if decided_early(rt, msg) {
        None
    } else {
        match content_hit(rt, msg) {
            Some(rule) => match rule.action {
                Action::Route { target, rewrite_cdpa_gt } => text_of(rewrite_cdpa_gt),
                _ => None,
            },
            None => None,
        }
    }
}

/// The digits that a content rule of a named tenant puts into the called title of
/// a message that goes on, if one does.
pub open spec fn rewrite_in(ts: Runtimes, tenant: Seq<char>, msg: Arrival) -> Option<Seq<char>> {
    if ts.contains_key(tenant) {
        rewrite_for(&ts[tenant], msg)
    } else {
        None
    }
}

/// What the deciding content rule's route target resolves to, if it resolves.
pub open spec fn content_target(rt: &TenantRuntime, msg: Arrival) -> Option<Translated> {
    match content_hit(rt, msg) {
        Some(rule) => match rule.action {
            Action::Route { target, rewrite_cdpa_gt } => resolved_target(rt, target),
            _ => None,
        },
        None => None,
    }
}

/// What a title translates to within a tenant: what the target of the first rule
/// that matches resolves to.
pub open spec fn translation_of(rt: &TenantRuntime, t: Title) -> Option<Translated> {
    match rt.gtt.matched(t) {
        Some(target) => resolved_target(rt, target),
        None => None,
    }
}

/// We own the called subsystem.
pub open spec fn owns_called(rt: &TenantRuntime, msg: Arrival) -> bool {
    msg.called_ssn matches Some(ssn) && rt.gtt.owned().contains(ssn)
}

/// The decision by translation, or by subsystem number when there is no title.
pub open spec fn by_translation(ts: Runtimes, rt: &TenantRuntime, msg: Arrival) -> Decision {
    match title_for_translation(rt, msg) {
        Some(t) => match translation_of(rt, converted(rt, t)) {
            Some(result) => of_translation(ts, rt, result),
            None => Decision::Drop { reason: "no GTT translation"@ },
        },
        None => if owns_called(rt, msg) {
            Decision::Local
        } else {
            Decision::Drop { reason: "no route-on-GT and no owned SSN"@ }
        },
    }
}

/// The message is decided before content rules and translation.
pub open spec fn decided_early(rt: &TenantRuntime, msg: Arrival) -> bool {
    msg.dpc != rt.point_code || (owns_called(rt, msg) && msg.cdpa is None)
}

/// The decision about a message within a tenant.
pub open spec fn decision_for(ts: Runtimes, rt: &TenantRuntime, msg: Arrival) -> Decision {
    if msg.dpc != rt.point_code {
        match destination(rt, msg.dpc) {
            Some(via) => Decision::Route { via },
            None => Decision::Drop { reason: "no MTP3 route to "@ + decimal(msg.dpc as nat) },
        }
    } else if owns_called(rt, msg) && msg.cdpa is None {
        Decision::Local
    } else {
        match content_hit(rt, msg) {
            Some(rule) => match rule.action {
                Action::Screen => Decision::Drop { reason: "screened by content rule"@ },
                Action::Python { hook } => Decision::Python { hook: hook@ },
                Action::Route { target, rewrite_cdpa_gt } => match content_target(rt, msg) {
                    Some(result) => of_translation(ts, rt, result),
                    None => by_translation(ts, rt, msg),
                },
            },
            None => by_translation(ts, rt, msg),
        }
    }
}

/// The decision about a message within a named tenant.
pub open spec fn decision_in(ts: Runtimes, tenant: Seq<char>, msg: Arrival) -> Decision {
    if ts.contains_key(tenant) {
        decision_for(ts, &ts[tenant], msg)
    } else {
        Decision::Drop { reason: "unknown tenant `"@ + tenant + "`"@ }
    }
}

// ── What a decision leaves behind ───────────────────────────────────────────

/// The content rule whose action ended the decision, if one did.
pub open spec fn ended_by_content(rt: &TenantRuntime, msg: Arrival) -> bool {
    match content_hit(rt, msg) {
        Some(rule) => match rule.action {
            Action::Route { target, rewrite_cdpa_gt } => content_target(rt, msg) is Some,
            _ => true,
        },
        None => false,
    }
}

/// The groups after a decision: whatever was selected from has moved on.
pub open spec fn groups_after(rt: &TenantRuntime, msg: Arrival) -> Map<Seq<char>, GroupState> {
    if decided_early(rt, msg) {
        rt.gtt.group_map()
    } else if ended_by_content(rt, msg) {
        match content_hit(rt, msg)->Some_0.action {
            Action::Route { target, rewrite_cdpa_gt } => after_target(rt.gtt.group_map(), target),
            _ => rt.gtt.group_map(),
        }
    } else {
        match title_for_translation(rt, msg) {
            Some(t) => rt.gtt.groups_after(converted(rt, t)),
            None => rt.gtt.group_map(),
        }
    }
}

/// The translation result that a decision was made on, if one was.
pub open spec fn result_used(rt: &TenantRuntime, msg: Arrival) -> Option<Translated> {
    if decided_early(rt, msg) {
        None
    } else if ended_by_content(rt, msg) {
        content_target(rt, msg)
    } else {
        match title_for_translation(rt, msg) {
            Some(t) => translation_of(rt, converted(rt, t)),
            None => None,
        }
    }
}

/// The target that a decision was made on, if one was.
pub open spec fn target_used(rt: &TenantRuntime, msg: Arrival) -> Option<RouteTarget> {
    if decided_early(rt, msg) {
        None
    } else if ended_by_content(rt, msg) {
        match content_hit(rt, msg)->Some_0.action {
            Action::Route { target, rewrite_cdpa_gt } => Some(target),
            _ => None,
        }
    } else {
        match title_for_translation(rt, msg) {
            Some(t) => rt.gtt.matched(converted(rt, t)),
            None => None,
        }
    }
}

/// Translation was tried and gave nothing.
pub open spec fn translation_failed(rt: &TenantRuntime, msg: Arrival) -> bool {
    !decided_early(rt, msg) && !ended_by_content(rt, msg) && match title_for_translation(rt, msg) {
        Some(t) => translation_of(rt, converted(rt, t)) is None,
        None => false,
    }
}

/// The result kind that a target's result is counted under: the group, if the
/// target selects from one.
pub open spec fn result_kind(t: RouteTarget, r: Translated) -> GttResultKind {
    if group_of(t) is Some {
        GttResultKind::Group
    } else {
        match r {
            Translated::Local => GttResultKind::Local,
            Translated::Dpc { dpc, ssn } => GttResultKind::Dpc,
            Translated::Tenant { tenant, dpc, ssn } => GttResultKind::Tenant,
        }
    }
}

/// The label that a content action is counted under.
pub open spec fn label_of(a: Action) -> Seq<char> {
    match a {
        Action::Route { target, rewrite_cdpa_gt } => if rewrite_cdpa_gt is Some {
            "rewrite"@
        } else {
            "route"@
        },
        Action::Screen => "screen"@,
        Action::Python { hook } => "python"@,
    }
}

/// The error counted on a translation result, if any: no route to its point code.
pub open spec fn result_error(rt: &TenantRuntime, t: Option<Translated>) -> Option<GttError> {
    match t {
        Some(Translated::Dpc { dpc, ssn }) => if destination(rt, dpc) is None {
            Some(GttError::NoRoute)
        } else {
            None
        },
        _ => None,
    }
}

/// A counter array after counting one kind, or none.
pub open spec fn bumped(cells: Seq<u64>, slot: Option<int>) -> Seq<u64> {
    match slot {
        Some(i) => cells.update(i, next(cells[i])),
        None => cells,
    }
}

/// Exactly the content-rule hit, translation and error given were counted between
/// two readings of the metrics.
pub open spec fn counted(
    before: Metrics,
    after: Metrics,
    hit: Option<(Seq<char>, Seq<char>)>,
    kind: Option<GttResultKind>,
    error: Option<GttError>,
) -> bool {
    &&& after.rule_hits@ == match hit {
        Some(k) => before.rule_hits@.insert(k, next(count_at(before.rule_hits@, k))),
        None => before.rule_hits@,
    }
    &&& after.translations@ == bumped(
        before.translations@,
        match kind {
            Some(k) => Some(gtt_result_slot(k)),
            None => None,
        },
    )
    &&& after.errors@ == bumped(
        before.errors@,
        match error {
            Some(e) => Some(gtt_error_slot(e)),
            None => None,
        },
    )
    &&& after == (Metrics {
        rule_hits: after.rule_hits,
        translations: after.translations,
        errors: after.errors,
        ..before
    })
}

/// The content-rule hit counted for a message.
pub open spec fn hit_counted(rt: &TenantRuntime, msg: Arrival) -> Option<(Seq<char>, Seq<char>)> {
    if decided_early(rt, msg) {
        None
    } else {
        match content_hit(rt, msg) {
            Some(rule) => Some((rule.name@, label_of(rule.action))),
            None => None,
        }
    }
}

/// The translation counted for a message.
pub open spec fn kind_counted(rt: &TenantRuntime, msg: Arrival) -> Option<GttResultKind> {
    match (target_used(rt, msg), result_used(rt, msg)) {
        (Some(t), Some(r)) => Some(result_kind(t, r)),
        _ => None,
    }
}

/// The message is for a subsystem that we do not own, and has no title to
/// translate.
pub open spec fn subsystem_refused(rt: &TenantRuntime, msg: Arrival) -> bool {
    !decided_early(rt, msg) && !ended_by_content(rt, msg) && title_for_translation(rt, msg) is None
        && msg.called_ssn is Some && !owns_called(rt, msg)
}

/// The error counted for a message.
pub open spec fn error_counted(rt: &TenantRuntime, msg: Arrival) -> Option<GttError> {
    if translation_failed(rt, msg) {
        Some(GttError::NoTranslation)
    } else if subsystem_refused(rt, msg) {
        Some(GttError::SsnProhibited)
    } else {
        result_error(rt, result_used(rt, msg))
    }
}

/// Two runtimes agree in everything but the availability.
pub open spec fn differs_in_state(a: TenantRuntime, b: TenantRuntime) -> bool {
    a == (TenantRuntime { route_state: a.route_state, ..b })
}

/// Two runtimes agree in everything but the rotation of their groups.
pub open spec fn differs_in_groups(a: TenantRuntime, b: TenantRuntime) -> bool {
    &&& a == (TenantRuntime { gtt: a.gtt, ..b })
    &&& a.gtt.rule_list() == b.gtt.rule_list()
    &&& a.gtt.owned() == b.gtt.owned()
}

/// Two sets of runtimes agree but for one tenant.
pub open spec fn agree_but_for(a: Runtimes, b: Runtimes, tenant: Seq<char>) -> bool {
    &&& a.dom() == b.dom()
    &&& forall|k: Seq<char>| #[trigger] b.contains_key(k) && k != tenant ==> a[k] == b[k]
}

/// A tenant's availability became `state`, and nothing else changed. An unknown
/// tenant changes nothing at all.
pub open spec fn state_became(
    before: Runtimes,
    after: Runtimes,
    tenant: Seq<char>,
    state: Availability,
) -> bool {
    &&& agree_but_for(after, before, tenant)
    &&& before.contains_key(tenant) ==> differs_in_state(after[tenant], before[tenant])
        && after[tenant].route_state@ == state
}

/// The route gauges of a tenant's point codes show what is reachable now; all
/// others are as they were.
pub open spec fn gauges_refreshed(rt: &TenantRuntime, before: Map<u32, i64>, after: Map<u32, i64>) -> bool {
    forall|d: u32|
        if rt.routes.candidates(d).len() > 0 {
            #[trigger] after.contains_key(d) && after[d] == gauge(destination(rt, d) is Some)
        } else {
            after.contains_key(d) == before.contains_key(d) && (before.contains_key(d) ==> after[d]
                == before[d])
        }
}

/// The gauge of a point code shows whether it is reachable if it is among those
/// done, and is as it was if not.
spec fn gauge_shown(
    rt: &TenantRuntime,
    done: Seq<u32>,
    start: Map<u32, i64>,
    now: Map<u32, i64>,
    d: u32,
) -> bool {
    if done.contains(d) {
        now.contains_key(d) && now[d] == gauge(destination(rt, d) is Some)
    } else {
        now.contains_key(d) == start.contains_key(d) && (start.contains_key(d) ==> now[d]
            == start[d])
    }
}

/// A target that resolves to nothing selects nothing.
proof fn nothing_selected(groups: Map<Seq<char>, GroupState>, t: RouteTarget)
    requires
        target_result(groups, t) is None,
    ensures
        after_target(groups, t) == groups,
{
    if t.tenant is None && t.local != Some(true) && t.group is Some {
        let g = t.group->Some_0@;
        if groups.contains_key(g) {
            assert(groups[g].stepped() == groups[g]);
            assert(groups.insert(g, groups[g]) =~= groups);
        }
    }
}

/// The result kind that a target's result is counted under.
fn kind_of(target: &RouteTarget, result: &GttResult) -> (r: GttResultKind)
    ensures
        r == result_kind(*target, result@),
{
    let local = match target.local {
        Some(b) => b,
        None => false,
    };
    if target.tenant.is_none() && !local && target.group.is_some() {
        return GttResultKind::Group;
    }
    match result {
        GttResult::Local => GttResultKind::Local,
        GttResult::Dpc { dpc: _, ssn: _ } => GttResultKind::Dpc,
        GttResult::Tenant { tenant: _, dpc: _, ssn: _ } => GttResultKind::Tenant,
    }
}

/// The cheapest reachable member of a target's cost group, if it is one and has
/// any.
fn alternate_of(rt: &TenantRuntime, target: &RouteTarget) -> (r: Option<(u32, u8)>)
    requires
        rt.wf(),
    ensures
        r == alternate(rt, *target),
{
    let local = match target.local {
        Some(b) => b,
        None => false,
    };
    if target.tenant.is_some() || local {
        return None;
    }
    match &target.group {
        Some(g) => match rt.gtt.group_cost_order(g.as_str()) {
            Some(members) => reachable_of(rt, members),
            None => None,
        },
        None => None,
    }
}

/// The first of some addresses whose point code is reachable within a tenant.
fn reachable_of(rt: &TenantRuntime, members: &Vec<(u32, u8)>) -> (r: Option<(u32, u8)>)
    requires
        rt.wf(),
    ensures
        r == first_reachable(rt, members@, 0),
{
    let mut i: usize = 0;
    while i < members.len()
        invariant
            i <= members@.len(),
            rt.wf(),
            first_reachable(rt, members@, 0) == first_reachable(rt, members@, i as int),
        decreases members.len() - i,
    {
        let a = members[i];
        if resolve_destination(rt, a.0).is_some() {
            return Some(a);
        }
        i += 1;
    }
    None
}

/// The label that a content action is counted under.
pub fn action_label(action: &Action) -> (r: &'static str)
    ensures
        r@ == label_of(*action),
{
    match action {
        Action::Route { target: _, rewrite_cdpa_gt } => {
            if rewrite_cdpa_gt.is_some() {
                "rewrite"
            } else {
                "route"
            }
        },
        Action::Screen => "screen",
        Action::Python { hook: _ } => "python",
    }
}

/// Resolves a point code to an egress within a tenant, honouring what is
/// available.
pub fn resolve_destination(rt: &TenantRuntime, dpc: u32) -> (r: Option<Destination>)
    requires
        rt.wf(),
    ensures
        egress_of(r) == destination(rt, dpc),
{
    match PointCode::from_value(dpc, rt.variant) {
        Ok(pc) => rt.routes.resolve(pc, &rt.route_state),
        Err(_) => None,
    }
}

/// Applies the E.214 conversion to a called title.
pub fn pre_convert(rt: &TenantRuntime, sel: &GttSelector) -> (r: GttSelector)
    requires
        rt.wf(),
    ensures
        r@ == converted(rt, sel@),
{
    let e214 = match sel.np {
        Some(np) => np == 3,
        None => false,
    };
    if e214 {
        match rt.converter.e214_to_e164(sel.digits.as_str()) {
            Some(digits) => {
                return GttSelector { digits, gti: sel.gti, tt: sel.tt, np: Some(1), nai: sel.nai };
            },
            None => {},
        }
    }
    sel.copy()
}

fn rewrite_title(sel: &GttSelector, rewrite: &Option<String>) -> (r: GttSelector)
    ensures
        Some(r@) == rewritten(Some(sel@), *rewrite),
{
    match rewrite {
        Some(digits) => GttSelector {
            digits: digits.clone(),
            gti: sel.gti,
            tt: sel.tt,
            np: sel.np,
            nai: sel.nai,
        },
        None => sel.copy(),
    }
}

/// Resolves inbound messages against the tables of a tenant.
#[derive(Debug)]
pub struct Router {
    tenancy: Tenancy,
}

impl Router {
    /// The runtimes by tenant.
    pub closed spec fn runtimes(&self) -> Runtimes {
        self.tenancy.runtimes()
    }

    /// All tables are in order.
    pub closed spec fn wf(&self) -> bool {
        self.tenancy.wf()
    }

    /// The tenancy this router holds.
    pub closed spec fn held(&self) -> Tenancy {
        self.tenancy
    }

    /// A router for a configuration.
    pub fn new(config: &Config) -> (r: Router)
        requires
            config.tenants.wf(),
        ensures
            r.wf(),
            r.runtimes().dom() == config.tenants@.dom(),
            forall|k: Seq<char>| #[trigger]
                config.tenants@.contains_key(k) ==> r.runtimes()[k].compiled_from(
                    k,
                    &config.tenants@[k],
                    config.associations@,
                ),
    {
        Router { tenancy: Tenancy::build(config) }
    }

    /// A router over compiled tenants.
    pub fn from_tenancy(tenancy: Tenancy) -> (r: Router)
        ensures
            r.held() == tenancy,
            r.runtimes() == tenancy.runtimes(),
            r.wf() == tenancy.wf(),
    {
        Router { tenancy }
    }

    /// The compiled tenants.
    pub fn tenancy(&self) -> (r: &Tenancy)
        ensures
            *r == self.held(),
            r.runtimes() == self.runtimes(),
            r.wf() == self.wf(),
    {
        &self.tenancy
    }

    /// Access to the compiled tenants.
    pub fn tenancy_mut(&mut self) -> (r: &mut Tenancy)
        ensures
            *r == old(self).held(),
            r.runtimes() == old(self).runtimes(),
            r.wf() == old(self).wf(),
            final(self).held() == *final(r),
            final(self).runtimes() == final(r).runtimes(),
            final(self).wf() == final(r).wf(),
    {
        &mut self.tenancy
    }

    /// Marks an Application Server of a tenant up. An unknown tenant changes
    /// nothing.
    pub fn note_as_up(&mut self, tenant: &str, name: &str)
        requires
            old(self).wf(),
        ensures
            final(self).wf(),
            state_became(
                old(self).runtimes(),
                final(self).runtimes(),
                tenant@,
                Availability {
                    as_up: old(self).runtimes()[tenant@].route_state@.as_up.insert(name@),
                    ..old(self).runtimes()[tenant@].route_state@
                },
            ),
    {
        let ghost before = self.runtimes();
        match self.tenancy.get_mut(tenant) {
            Some(rt) => {
                rt.route_state.set_as_up(name);
            },
            None => {},
        }
        proof {
            assert(self.runtimes().dom() =~= before.dom());
        }
    }

    /// Marks an Application Server of a tenant down. An unknown tenant changes
    /// nothing.
    pub fn note_as_down(&mut self, tenant: &str, name: &str)
        requires
            old(self).wf(),
        ensures
            final(self).wf(),
            state_became(
                old(self).runtimes(),
                final(self).runtimes(),
                tenant@,
                Availability {
                    as_up: old(self).runtimes()[tenant@].route_state@.as_up.remove(name@),
                    ..old(self).runtimes()[tenant@].route_state@
                },
            ),
    {
        let ghost before = self.runtimes();
        match self.tenancy.get_mut(tenant) {
            Some(rt) => {
                rt.route_state.set_as_down(name);
            },
            None => {},
        }
        proof {
            assert(self.runtimes().dom() =~= before.dom());
        }
    }

    /// Marks a linkset of a tenant up. An unknown tenant changes nothing.
    pub fn note_linkset_up(&mut self, tenant: &str, name: &str)
        requires
            old(self).wf(),
        ensures
            final(self).wf(),
            state_became(
                old(self).runtimes(),
                final(self).runtimes(),
                tenant@,
                Availability {
                    linksets_up: old(self).runtimes()[tenant@].route_state@.linksets_up.insert(
                        name@,
                    ),
                    ..old(self).runtimes()[tenant@].route_state@
                },
            ),
    {
        let ghost before = self.runtimes();
        match self.tenancy.get_mut(tenant) {
            Some(rt) => {
                rt.route_state.set_linkset_up(name);
            },
            None => {},
        }
        proof {
            assert(self.runtimes().dom() =~= before.dom());
        }
    }

    /// Marks a linkset of a tenant down. An unknown tenant changes nothing.
    pub fn note_linkset_down(&mut self, tenant: &str, name: &str)
        requires
            old(self).wf(),
        ensures
            final(self).wf(),
            state_became(
                old(self).runtimes(),
                final(self).runtimes(),
                tenant@,
                Availability {
                    linksets_up: old(self).runtimes()[tenant@].route_state@.linksets_up.remove(
                        name@,
                    ),
                    ..old(self).runtimes()[tenant@].route_state@
                },
            ),
    {
        let ghost before = self.runtimes();
        match self.tenancy.get_mut(tenant) {
            Some(rt) => {
                rt.route_state.set_linkset_down(name);
            },
            None => {},
        }
        proof {
            assert(self.runtimes().dom() =~= before.dom());
        }
    }

    /// Brings everything of a tenant down. An unknown tenant changes nothing.
    pub fn reset_availability_down(&mut self, tenant: &str)
        requires
            old(self).wf(),
        ensures
            final(self).wf(),
            state_became(
                old(self).runtimes(),
                final(self).runtimes(),
                tenant@,
                Availability {
                    as_up: Set::empty(),
                    linksets_up: Set::empty(),
                    ..old(self).runtimes()[tenant@].route_state@
                },
            ),
    {
        let ghost before = self.runtimes();
        match self.tenancy.get_mut(tenant) {
            Some(rt) => {
                rt.route_state.set_all_down();
            },
            None => {},
        }
        proof {
            assert(self.runtimes().dom() =~= before.dom());
        }
    }

    /// Refreshes the route gauge of every point code in a tenant's table.
    pub fn refresh_route_metrics(&self, m: &mut Metrics, tenant: &str)
        requires
            self.wf(),
            old(m).wf(),
        ensures
            final(m).wf(),
            *final(m) == (Metrics { route_available: final(m).route_available, ..*old(m) }),
            match self.runtimes().contains_key(tenant@) {
                true => gauges_refreshed(
                    &self.runtimes()[tenant@],
                    old(m).route_available@,
                    final(m).route_available@,
                ),
                false => *final(m) == *old(m),
            },
    {
        let rt = match self.tenancy.get(tenant) {
            Some(rt) => rt,
            None => {
                return;
            },
        };
        let dpcs = rt.routes.dpcs();
        let ghost start = m.route_available@;
        let mut i: usize = 0;
        while i < dpcs.len()
            invariant
                i <= dpcs@.len(),
                rt.wf(),
                m.wf(),
                *m == (Metrics { route_available: m.route_available, ..*old(m) }),
                forall|a: int, b: int| 0 <= a < b < dpcs@.len() ==> dpcs@[a] < dpcs@[b],
                forall|d: u32| #[trigger]
                    gauge_shown(rt, dpcs@.subrange(0, i as int), start, m.route_available@, d),
            decreases dpcs.len() - i,
        {
            let ghost before = m.route_available@;
            let up = resolve_destination(rt, dpcs[i]).is_some();
            set_route_available(m, dpcs[i], up);
            proof {
                let done = dpcs@.subrange(0, i as int);
                let more = dpcs@.subrange(0, i + 1);
                assert forall|d: u32| #[trigger]
                    gauge_shown(rt, more, start, m.route_available@, d) by {
                    assert(gauge_shown(rt, done, start, before, d));
                    assert(more =~= done.push(dpcs@[i as int]));
                    assert(more.contains(d) <==> done.contains(d) || d == dpcs@[i as int]) by {
                        if more.contains(d) {
                            let k = choose|k: int| 0 <= k < more.len() && more[k] == d;
                            if k < i {
                                assert(done[k] == d);
                            }
                        }
                        if done.contains(d) {
                            let k = choose|k: int| 0 <= k < done.len() && done[k] == d;
                            assert(more[k] == d);
                        }
                        assert(more[i as int] == dpcs@[i as int]);
                    }
                }
            }
            i += 1;
        }
        proof {
            assert(dpcs@.subrange(0, i as int) =~= dpcs@);
            assert forall|d: u32|
                if rt.routes.candidates(d).len() > 0 {
                    #[trigger] m.route_available@.contains_key(d) && m.route_available@[d] == gauge(
                        destination(rt, d) is Some,
                    )
                } else {
                    m.route_available@.contains_key(d) == start.contains_key(d) && (
                    start.contains_key(d) ==> m.route_available@[d] == start[d])
                } by {
                assert(gauge_shown(rt, dpcs@, start, m.route_available@, d));
            }
        }
    }

    /// Folds a network-management event into a tenant's availability, counts it,
    /// and refreshes the route gauges. An unknown tenant changes nothing.
    pub fn apply_mtp3_event(&mut self, m: &mut Metrics, tenant: &str, event: &Mtp3Event)
        requires
            old(self).wf(),
            old(m).wf(),
        ensures
            final(self).wf(),
            final(m).wf(),
            state_became(
                old(self).runtimes(),
                final(self).runtimes(),
                tenant@,
                old(self).runtimes()[tenant@].route_state@.after(*event),
            ),
            *final(m) == (Metrics {
                management_events: final(m).management_events,
                route_available: final(m).route_available,
                ..*old(m)
            }),
            old(self).runtimes().contains_key(tenant@) ==> gauges_refreshed(
                &final(self).runtimes()[tenant@],
                old(m).route_available@,
                final(m).route_available@,
            ) && final(m).management_events@ == event_counted(old(m).management_events@, *event),
            !old(self).runtimes().contains_key(tenant@) ==> *final(m) == *old(m),
    {
        let ghost before = self.runtimes();
        match self.tenancy.get_mut(tenant) {
            Some(rt) => {
                rt.route_state.apply_event(event);
            },
            None => {
                return;
            },
        }
        proof {
            assert(self.runtimes().dom() =~= before.dom());
        }
        match event {
            Mtp3Event::Pause { affected } => {
                mtp3mg_event(m, affected.value(), Mtp3MgKind::Pause);
            },
            Mtp3Event::Resume { affected } => {
                mtp3mg_event(m, affected.value(), Mtp3MgKind::Resume);
            },
            Mtp3Event::Status { affected, status: _ } => {
                mtp3mg_event(m, affected.value(), Mtp3MgKind::Congestion);
            },
            Mtp3Event::Transfer => {},
        }
        self.refresh_route_metrics(m, tenant);
    }

    /// A tenant's own point code.
    pub fn node_point_code(&self, tenant: &str) -> (r: Option<u32>)
        requires
            self.wf(),
        ensures
            r == if self.runtimes().contains_key(tenant@) {
                Some(self.runtimes()[tenant@].point_code)
            } else {
                None
            },
    {
        match self.tenancy.get(tenant) {
            Some(rt) => Some(rt.point_code),
            None => None,
        }
    }

    /// The network indicator of messages a tenant originates, as its two bits.
    pub fn node_network_indicator(&self, tenant: &str) -> (r: Option<u8>)
        requires
            self.wf(),
        ensures
            r == if self.runtimes().contains_key(tenant@) {
                Some(ni_bits(self.runtimes()[tenant@].network_indicator))
            } else {
                None
            },
    {
        match self.tenancy.get(tenant) {
            Some(rt) => Some(rt.network_indicator.bits()),
            None => None,
        }
    }

    /// A tenant's ISUP screening, if it is configured.
    pub fn isup_screen(&self, tenant: &str) -> (r: Option<&IsupScreen>)
        requires
            self.wf(),
        ensures
            match r {
                Some(s) => self.runtimes().contains_key(tenant@)
                    && self.runtimes()[tenant@].isup == Some(*s),
                None => self.runtimes().contains_key(tenant@) ==> self.runtimes()[tenant@].isup
                    is None,
            },
    {
        match self.tenancy.get(tenant) {
            Some(rt) => rt.isup.as_ref(),
            None => None,
        }
    }

    /// Whether a tenant has content rules, so that a message needs its view.
    pub fn wants_view(&self, tenant: &str) -> (r: bool)
        requires
            self.wf(),
        ensures
            r == (self.runtimes().contains_key(tenant@) && (
            self.runtimes()[tenant@].content matches Some(c) && c.rule_list().len() > 0)),
    {
        match self.tenancy.get(tenant) {
            Some(rt) => match &rt.content {
                Some(c) => c.has_rules(),
                None => false,
            },
            None => false,
        }
    }

    /// The digits that a content rule puts into the called title of a message that
    /// goes on, if one does. Only a message that the rules decide about is
    /// rewritten: not one that transits or terminates by its subsystem number.
    pub fn rewrite_in(&self, tenant: &str, msg: &Inbound) -> (r: Option<String>)
        requires
            self.wf(),
        ensures
            text_of(r) == rewrite_in(self.runtimes(), tenant@, msg@),
    {
        let rt = match self.tenancy.get(tenant) {
            Some(rt) => rt,
            None => {
                return None;
            },
        };
        let owned = match msg.called_ssn {
            Some(ssn) => rt.gtt.owns_ssn(ssn),
            None => false,
        };
        if msg.dpc != rt.point_code || (owned && msg.cdpa.is_none()) {
            return None;
        }
        match (&rt.content, &msg.view) {
            (Some(engine), Some(view)) => match engine.evaluate(view) {
                Some(h) => match h.action {
                    Action::Route { target: _, rewrite_cdpa_gt } => rewrite_cdpa_gt,
                    _ => None,
                },
                None => None,
            },
            _ => None,
        }
    }

    /// Whether a point code resolves to an available egress within a tenant.
    pub fn is_reachable(&self, tenant: &str, dpc_value: u32) -> (r: bool)
        requires
            self.wf(),
        ensures
            r == (self.runtimes().contains_key(tenant@) && destination(
                &self.runtimes()[tenant@],
                dpc_value,
            ) is Some),
    {
        match self.tenancy.get(tenant) {
            Some(rt) => resolve_destination(rt, dpc_value).is_some(),
            None => false,
        }
    }

    /// Routes a message within the tenant called `default`.
    pub fn route(&mut self, m: &mut Metrics, msg: &Inbound) -> (r: RouteDecision)
        requires
            old(self).wf(),
            old(m).wf(),
        ensures
            final(self).wf(),
            final(m).wf(),
            r@ == decision_in(old(self).runtimes(), DEFAULT_TENANT@, msg@),
            routed(*old(self), *final(self), *old(m), *final(m), DEFAULT_TENANT@, msg@),
    {
        self.route_in(m, DEFAULT_TENANT, msg)
    }

    /// Turns what a target resolves to into a decision, and counts it.
    fn decision_from_gtt(
        &self,
        m: &mut Metrics,
        tenant: &str,
        target: &RouteTarget,
        result: GttResult,
    ) -> (r: RouteDecision)
        requires
            self.wf(),
            old(m).wf(),
            self.runtimes().contains_key(tenant@),
        ensures
            final(m).wf(),
            r@ == of_translation(self.runtimes(), &self.runtimes()[tenant@], result@),
            counted(
                *old(m),
                *final(m),
                None,
                Some(result_kind(*target, result@)),
                result_error(&self.runtimes()[tenant@], Some(result@)),
            ),
    {
        let kind = kind_of(target, &result);
        gtt_translation(m, kind);
        match result {
            GttResult::Local => RouteDecision::Local,
            GttResult::Dpc { dpc, ssn } => {
                let via = match self.tenancy.get(tenant) {
                    Some(rt) => resolve_destination(rt, dpc),
                    None => None,
                };
                if via.is_none() {
                    gtt_error(m, GttError::NoRoute);
                }
                RouteDecision::RouteTo { dpc, ssn, via }
            },
            GttResult::Tenant { tenant: to, dpc, ssn } => {
                let conversion = match self.tenancy.get(tenant) {
                    Some(rt) => match self.tenancy.cross_tenant(rt.id.as_str(), to.as_str()) {
                        Some(x) => x.conversion,
                        None => false,
                    },
                    None => false,
                };
                RouteDecision::CrossTenant { tenant: to, dpc, ssn, conversion }
            },
        }
    }

    /// Resolves a route target within a tenant, moving its groups on. A cost group
    /// gives its cheapest reachable member.
    fn resolve_in(&mut self, tenant: &str, target: &RouteTarget) -> (r: Option<GttResult>)
        requires
            old(self).wf(),
            old(self).runtimes().contains_key(tenant@),
        ensures
            final(self).wf(),
            translated(r) == resolved_target(&old(self).runtimes()[tenant@], *target),
            agree_but_for(final(self).runtimes(), old(self).runtimes(), tenant@),
            differs_in_groups(final(self).runtimes()[tenant@], old(self).runtimes()[tenant@]),
            final(self).runtimes()[tenant@].gtt.group_map() == after_target(
                old(self).runtimes()[tenant@].gtt.group_map(),
                *target,
            ),
    {
        let ghost before = self.runtimes();
        let cheapest = match self.tenancy.get(tenant) {
            Some(rt) => alternate_of(rt, target),
            None => None,
        };
        let primary = match self.tenancy.get_mut(tenant) {
            Some(rt) => rt.gtt.resolve_target(target),
            None => None,
        };
        proof {
            assert(self.runtimes().dom() =~= before.dom());
        }
        match (primary, cheapest) {
            (Some(_), Some(a)) => Some(GttResult::Dpc { dpc: a.0, ssn: a.1 }),
            (r, _) => r,
        }
    }

    /// Routes a message within a named tenant: by point code if it is not for us,
    /// else by the content rules, else by translating its called title, else by
    /// its subsystem number.
    #[verifier::rlimit(60)]
    pub fn route_in(&mut self, m: &mut Metrics, tenant: &str, msg: &Inbound) -> (r: RouteDecision)
        requires
            old(self).wf(),
            old(m).wf(),
        ensures
            final(self).wf(),
            final(m).wf(),
            r@ == decision_in(old(self).runtimes(), tenant@, msg@),
            routed(*old(self), *final(self), *old(m), *final(m), tenant@, msg@),
    {
        let ghost ts = self.runtimes();
        let rt = match self.tenancy.get(tenant) {
            Some(rt) => rt,
            None => {
                return RouteDecision::Drop { reason: join3("unknown tenant `", tenant, "`") };
            },
        };
        if msg.dpc != rt.point_code {
            return match resolve_destination(rt, msg.dpc) {
                Some(via) => RouteDecision::Route { via },
                None => RouteDecision::Drop {
                    reason: join2("no MTP3 route to ", decimal_of(msg.dpc as u64).as_str()),
                },
            };
        }
        let owned = match msg.called_ssn {
            Some(ssn) => rt.gtt.owns_ssn(ssn),
            None => false,
        };
        if owned && msg.cdpa.is_none() {
            return RouteDecision::Local;
        }
        let hit = match (&rt.content, &msg.view) {
            (Some(engine), Some(view)) => engine.evaluate(view),
            _ => None,
        };
        let mut title: Option<GttSelector> = match &msg.cdpa {
            Some(sel) => Some(sel.copy()),
            None => None,
        };
        match hit {
            Some(h) => {
                content_rule_hit(m, h.rule.as_str(), action_label(&h.action));
                match h.action {
                    Action::Screen => {
                        return RouteDecision::Drop { reason: "screened by content rule".to_owned() };
                    },
                    Action::Python { hook } => {
                        return RouteDecision::Python { hook };
                    },
                    Action::Route { target, rewrite_cdpa_gt } => {
                        match self.resolve_in(tenant, &target) {
                            Some(result) => {
                                let ghost counted_hit = *m;
                                let r = self.decision_from_gtt(m, tenant, &target, result);
                                proof {
                                    same_elsewhere(ts, self.runtimes(), tenant@);
                                }
                                return r;
                            },
                            None => {
                                proof {
                                    nothing_selected(ts[tenant@].gtt.group_map(), target);
                                    same_resolution(&ts[tenant@], &self.runtimes()[tenant@]);
                                }
                            },
                        }
                        title = match &msg.cdpa {
                            Some(sel) => Some(rewrite_title(sel, &rewrite_cdpa_gt)),
                            None => None,
                        };
                    },
                }
            },
            None => {},
        }
        let ghost mid = self.runtimes();
        match title {
            Some(sel) => {
                let converted_sel = match self.tenancy.get(tenant) {
                    Some(rt) => pre_convert(rt, &sel),
                    None => sel,
                };
                let target = match self.tenancy.get(tenant) {
                    Some(rt) => rt.gtt.matching(&converted_sel),
                    None => None,
                };
                match target {
                    Some(target) => match self.resolve_in(tenant, &target) {
                        Some(result) => {
                            let r = self.decision_from_gtt(m, tenant, &target, result);
                            proof {
                                same_elsewhere(ts, self.runtimes(), tenant@);
                            }
                            return r;
                        },
                        None => {
                            proof {
                                nothing_selected(ts[tenant@].gtt.group_map(), target);
                            }
                        },
                    },
                    None => {},
                }
                gtt_error(m, GttError::NoTranslation);
                RouteDecision::Drop { reason: "no GTT translation".to_owned() }
            },
            None => {
                if owned {
                    RouteDecision::Local
                } else {
                    if msg.called_ssn.is_some() {
                        gtt_error(m, GttError::SsnProhibited);
                    }
                    RouteDecision::Drop { reason: "no route-on-GT and no owned SSN".to_owned() }
                }
            },
        }
    }
}

/// The management events after counting one event.
pub open spec fn event_counted(events: Map<(u32, Seq<char>), u64>, event: Mtp3Event) -> Map<
    (u32, Seq<char>),
    u64,
> {
    let k = match event {
        Mtp3Event::Pause { affected } => Some((affected.value, mtp3mg_label(Mtp3MgKind::Pause))),
        Mtp3Event::Resume { affected } => Some((affected.value, mtp3mg_label(Mtp3MgKind::Resume))),
        Mtp3Event::Status { affected, status } => Some(
            (affected.value, mtp3mg_label(Mtp3MgKind::Congestion)),
        ),
        Mtp3Event::Transfer => None,
    };
    match k {
        Some(key) => events.insert(key, next(count_at(events, key))),
        None => events,
    }
}

/// What routing a message changes in the tables: the tenant's groups that were
/// selected from, and nothing else.
pub open spec fn groups_moved(before: Router, after: Router, tenant: Seq<char>, msg: Arrival) -> bool {
    let ts = before.runtimes();
    if ts.contains_key(tenant) {
        &&& agree_but_for(after.runtimes(), ts, tenant)
        &&& differs_in_groups(after.runtimes()[tenant], ts[tenant])
        &&& after.runtimes()[tenant].gtt.group_map() == groups_after(&ts[tenant], msg)
    } else {
        after == before
    }
}

/// What routing a message changes: the tenant's groups that were selected from,
/// and the counters of what happened. Nothing else.
pub open spec fn routed(
    before: Router,
    after: Router,
    m: Metrics,
    n: Metrics,
    tenant: Seq<char>,
    msg: Arrival,
) -> bool {
    let ts = before.runtimes();
    &&& groups_moved(before, after, tenant, msg)
    &&& if ts.contains_key(tenant) {
        let rt = &ts[tenant];
        counted(m, n, hit_counted(rt, msg), kind_counted(rt, msg), error_counted(rt, msg))
    } else {
        n == m
    }
}

/// One change of a tenant's availability after another.
pub proof fn state_became_twice(
    a: Runtimes,
    b: Runtimes,
    c: Runtimes,
    tenant: Seq<char>,
    s: Availability,
    t: Availability,
)
    requires
        state_became(a, b, tenant, s),
        state_became(b, c, tenant, t),
    ensures
        state_became(a, c, tenant, t),
{
    assert(a.dom().contains(tenant) == b.dom().contains(tenant));
    assert forall|k: Seq<char>| #[trigger] a.contains_key(k) && k != tenant implies c[k] == a[k] by {
        assert(a.dom().contains(k) == b.dom().contains(k));
        assert(b.contains_key(k));
    }
}

proof fn same_reachable(a: &TenantRuntime, b: &TenantRuntime, members: Seq<(u32, u8)>, from: int)
    requires
        forall|d: u32| destination(b, d) == #[trigger] destination(a, d),
    ensures
        first_reachable(b, members, from) == first_reachable(a, members, from),
    decreases members.len() - from,
{
    if 0 <= from < members.len() {
        assert(destination(b, members[from].0) == destination(a, members[from].0));
        same_reachable(a, b, members, from + 1);
    }
}

/// Runtimes whose groups stand alike resolve every target alike.
proof fn same_resolution(a: &TenantRuntime, b: &TenantRuntime)
    requires
        differs_in_groups(*b, *a),
        b.gtt.group_map() == a.gtt.group_map(),
    ensures
        forall|t: RouteTarget| #[trigger] resolved_target(b, t) == resolved_target(a, t),
        forall|t: Title| #[trigger] b.gtt.matched(t) == a.gtt.matched(t),
{
    assert forall|t: RouteTarget| #[trigger] resolved_target(b, t) == resolved_target(a, t) by {
        if let Some(g) = group_of(t) {
            same_reachable(a, b, a.gtt.group_map()[g].members@, 0);
        }
    }
}

/// Moving the groups of one tenant on changes no decision on a result.
proof fn same_elsewhere(a: Runtimes, b: Runtimes, tenant: Seq<char>)
    requires
        a.contains_key(tenant),
        agree_but_for(b, a, tenant),
        differs_in_groups(b[tenant], a[tenant]),
    ensures
        forall|t: Translated|
            of_translation(b, &b[tenant], t) == #[trigger] of_translation(a, &a[tenant], t),
        forall|d: u32| destination(&b[tenant], d) == #[trigger] destination(&a[tenant], d),
{
    assert forall|t: Translated|
        of_translation(b, &b[tenant], t) == #[trigger] of_translation(a, &a[tenant], t) by {
        if let Translated::Tenant { tenant: to, dpc, ssn } = t {
            assert(a.contains_key(to) == b.contains_key(to)) by {
                assert(a.dom().contains(to) == b.dom().contains(to));
            }
            let id = a[tenant].id@;
            assert(a.contains_key(id) == b.contains_key(id)) by {
                assert(a.dom().contains(id) == b.dom().contains(id));
            }
            if a.contains_key(to) && to != tenant {
                assert(b[to] == a[to]);
            }
            if a.contains_key(id) && id != tenant {
                assert(b[id] == a[id]);
            }
        }
    }
}

} // verus!
