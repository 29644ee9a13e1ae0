//! What becomes of a unit that arrives, stated on the unit and on what goes out.
use crate::config::Adaptation;
use crate::content::view::{map_view, ViewModel};
use crate::isup::{isup_decoded, IsupScreen, Verdict};
use crate::metrics::{next, Metrics};
use crate::mtp3::route::Egress;
use crate::routing::{decision_in, groups_after, rewrite_in, Arrival, Decision, Router};
use crate::sccp::message::{
    sccp_decoded, sccp_encoded, MessageModel, PartyTitle, SccpForm, SccpHead,
};
use crate::sccp::gtt::Title;
use crate::tenant::Runtimes;
use crate::transaction::tcap_decoded;
use crate::transport::forward::{
    acted, arrival_of, asks_return, dispatch_counted, dispatch_moved, dispatched, frames_for, onward,
    outcome_counted, relayed, sccp_part, sent_via, title_of, view_for, violation_message,
    violation_unit, CauseModel, OutcomeModel, Relay,
};
use crate::transport::framing::m2pa_frame;
use crate::transport::msu::MsuModel;
use crate::transport::registry::{arrived_over, selection, Choice, Registry};
use crate::transport::wire::m3ua_data_octets;
use vstd::prelude::*;

verus! {

// ── What the router is told ─────────────────────────────────────────────────

/// The router matches a title by its own fields: its digits, its indicator, and the
/// translation type, numbering plan and nature of address where its format has them.
pub proof fn law_title_is_matched_by_its_fields(t: PartyTitle)
    ensures
        t is Gt0100 ==> title_of(t@) == (Title {
            digits: t->Gt0100_digits@,
            gti: Some(4),
            tt: Some(t->Gt0100_translation_type),
            np: Some(t->Gt0100_numbering_plan),
            nai: Some(t->Gt0100_nature_of_address),
        }),
        t is Gt0011 ==> title_of(t@) == (Title {
            digits: t->Gt0011_digits@,
            gti: Some(3),
            tt: Some(t->Gt0011_translation_type),
            np: Some(t->Gt0011_numbering_plan),
            nai: None,
        }),
        t is Gt0010 ==> title_of(t@) == (Title {
            digits: t->Gt0010_digits@,
            gti: Some(2),
            tt: Some(t->Gt0010_translation_type),
            np: None,
            nai: None,
        }),
        t is Gt0001 ==> title_of(t@) == (Title {
            digits: t->Gt0001_digits@,
            gti: Some(1),
            tt: None,
            np: None,
            nai: Some(t->Gt0001_nature_of_address),
        }),
{
}

/// The router is told the unit's destination, and of an SCCP message the called party's
/// title and subsystem; of any other unit, and of a message that does not decode, only
/// the destination.
pub proof fn law_router_reads_the_called_party(m: MsuModel, view: Option<ViewModel>)
    ensures
        arrival_of(m, sccp_part(m), view).dpc == m.dpc,
        arrival_of(m, sccp_part(m), view).view == view,
        m.si == 3 && sccp_decoded(m.payload) is Ok ==> {
            let msg = sccp_decoded(m.payload)->Ok_0;
            let a = arrival_of(m, sccp_part(m), view);
            &&& a.called_ssn == msg.called_party.ssn
            &&& msg.called_party.global_title is NoTitle ==> a.cdpa is None
            &&& !(msg.called_party.global_title is NoTitle) ==> a.cdpa == Some(
                title_of(msg.called_party.global_title),
            )
        },
        m.si != 3 || sccp_decoded(m.payload) is Err ==> arrival_of(m, sccp_part(m), view).cdpa
            is None && arrival_of(m, sccp_part(m), view).called_ssn is None,
{
}

/// The content of a message is looked at only for a tenant with content rules; it is then
/// that of the transaction message that the unit carries.
pub proof fn law_content_is_read_for_rules(ts: Runtimes, tenant: Seq<char>, m: MsuModel)
    ensures
        !ts.contains_key(tenant) ==> view_for(ts, tenant, sccp_part(m)) is None,
        ts.contains_key(tenant) && (ts[tenant].content is None
            || ts[tenant].content->Some_0.rule_list().len() == 0) ==> view_for(
            ts,
            tenant,
            sccp_part(m),
        ) is None,
        ts.contains_key(tenant) && ts[tenant].content is Some
            && ts[tenant].content->Some_0.rule_list().len() > 0 && m.si == 3 && sccp_decoded(
            m.payload,
        ) is Ok ==> {
            let msg = sccp_decoded(m.payload)->Ok_0;
            &&& tcap_decoded(msg.data) matches Ok(t) ==> view_for(ts, tenant, sccp_part(m))
                == map_view(msg, Some(t))
            &&& tcap_decoded(msg.data) is Err ==> view_for(ts, tenant, sccp_part(m)) == map_view(
                msg,
                None,
            )
        },
{
}

// ── Relaying ────────────────────────────────────────────────────────────────

/// A message that is relayed has its hop counter one lower and, under a rewrite, the
/// digits of its called title replaced. Everything else is as it came.
pub proof fn law_relay_changes_hops_and_digits_only(msg: MessageModel, rewrite: Option<Seq<char>>)
    requires
        msg.hop_counter matches Some(h) ==> h >= 1,
    ensures
        ({
            let on = onward(msg, rewrite);
            &&& on.form == msg.form
            &&& on.head == msg.head
            &&& on.calling_party == msg.calling_party
            &&& on.data == msg.data
            &&& on.optional_part == msg.optional_part
            &&& on.called_party.ssn == msg.called_party.ssn
            &&& on.called_party.point_code == msg.called_party.point_code
            &&& on.called_party.route_on_ssn == msg.called_party.route_on_ssn
            &&& msg.hop_counter is None ==> on.hop_counter is None
            &&& msg.hop_counter matches Some(h) ==> on.hop_counter == Some((h - 1) as u8)
            &&& rewrite is None ==> on.called_party.global_title == msg.called_party.global_title
            &&& msg.called_party.global_title is NoTitle ==> on.called_party.global_title
                is NoTitle
            &&& rewrite matches Some(d) ==> (!(msg.called_party.global_title is NoTitle)
                ==> on.called_party.global_title.digits() == Some(d))
            &&& title_of(on.called_party.global_title).gti == title_of(
                msg.called_party.global_title,
            ).gti
            &&& title_of(on.called_party.global_title).tt == title_of(
                msg.called_party.global_title,
            ).tt
            &&& title_of(on.called_party.global_title).np == title_of(
                msg.called_party.global_title,
            ).np
            &&& title_of(on.called_party.global_title).nai == title_of(
                msg.called_party.global_title,
            ).nai
        }),
{
}

/// A message is relayed unless its hop counter is 1 or 0, which ends it: with a higher
/// counter, or with digits to rewrite, what goes out is its re-encoding with the counter
/// one lower and the digits replaced, and otherwise its own octets.
pub proof fn law_relay_ends_on_the_last_hop(
    payload: Seq<u8>,
    msg: MessageModel,
    rewrite: Option<Seq<char>>,
)
    ensures
        relayed(payload, Some(Ok(msg)), rewrite) is Exhausted <==> (msg.hop_counter is Some
            && msg.hop_counter->Some_0 <= 1),
        msg.hop_counter is Some && msg.hop_counter->Some_0 > 1 ==> {
            &&& sccp_encoded(onward(msg, rewrite)) matches Ok(b) ==> relayed(
                payload,
                Some(Ok(msg)),
                rewrite,
            ) == Relay::Forward(b)
            &&& sccp_encoded(onward(msg, rewrite)) is Err ==> relayed(
                payload,
                Some(Ok(msg)),
                rewrite,
            ) == Relay::Forward(payload)
        },
        msg.hop_counter is None && rewrite is Some && !(msg.called_party.global_title is NoTitle)
            && sccp_encoded(onward(msg, rewrite)) is Ok ==> relayed(payload, Some(Ok(msg)), rewrite)
            == Relay::Forward(sccp_encoded(onward(msg, rewrite))->Ok_0),
        msg.hop_counter is None && (rewrite is None || msg.called_party.global_title is NoTitle)
            ==> relayed(payload, Some(Ok(msg)), rewrite) == Relay::Forward(payload),
        relayed(payload, None, rewrite) == Relay::Forward(payload),
{
}

/// A message whose hops ran out is returned exactly if it is an extended or long data
/// message that asks for it. The return tells the cause, carries the data back from the
/// called to the calling party, starts with a fresh hop counter, and goes from our point
/// code to where the message came from.
pub proof fn law_return_of_a_message(m: MsuModel, msg: MessageModel, own_pc: Option<u32>)
    ensures
        asks_return(msg) <==> (msg.form == SccpForm::Extended || msg.form == SccpForm::Long)
            && msg.head is Data && msg.head->message_handling == 8,
        !asks_return(msg) ==> violation_unit(m, msg, own_pc) is None,
        asks_return(msg) ==> (violation_unit(m, msg, own_pc) is Some <==> sccp_encoded(
            violation_message(msg),
        ) is Ok),
        violation_unit(m, msg, own_pc) matches Some(back) ==> {
            &&& Ok::<Seq<u8>, Seq<char>>(back.payload) == sccp_encoded(violation_message(msg))
            &&& back.dpc == m.opc
            &&& own_pc matches Some(pc) ==> back.opc == pc
            &&& own_pc is None ==> back.opc == m.dpc
            &&& back.si == m.si && back.ni == m.ni && back.mp == m.mp && back.sls == m.sls
        },
        violation_message(msg).form == msg.form,
        violation_message(msg).head == (SccpHead::Service { return_cause: 12 }),
        violation_message(msg).hop_counter == Some(15u8),
        violation_message(msg).called_party == msg.calling_party,
        violation_message(msg).calling_party == msg.called_party,
        violation_message(msg).data == msg.data,
        violation_message(msg).optional_part.len() == 0,
{
}

// ── What is done ────────────────────────────────────────────────────────────

/// A unit that is routed by its point code goes out as it came, over what it resolves to.
/// It is dropped if it is an ISUP message that the tenant's screening blocks, or if it
/// would go back where it came from.
pub proof fn law_transit_goes_out_as_it_came(
    via: Egress,
    g: &Registry,
    m: MsuModel,
    part: Option<Result<MessageModel, Seq<char>>>,
    assoc: Seq<char>,
    own_pc: Option<u32>,
    screen: Option<IsupScreen>,
    rewrite: Option<Seq<char>>,
)
    ensures
        ({
            let done = acted(
                Decision::Route { via },
                g,
                m,
                part,
                assoc,
                own_pc,
                screen,
                rewrite,
            );
            let v = match screen {
                Some(s) => s.verdict_on(isup_decoded(m.payload)),
                None => Verdict::Pass,
            };
            let blocked = screen is Some && m.si == 5 && (v is BlockRule || v is BlockDefault || v
                is BlockUndecoded);
            &&& blocked ==> done == OutcomeModel::Dropped(CauseModel::Screened(v), Seq::empty())
            &&& !blocked && arrived_over(g, assoc) == Some(via) ==> done == OutcomeModel::Dropped(
                CauseModel::Reflected(via),
                Seq::empty(),
            )
            &&& !blocked && arrived_over(g, assoc) != Some(via) ==> done == OutcomeModel::Forwarded(
                sent_via(g, via, m),
            )
        }),
{
}

/// A unit that was translated goes to the new point code, with the same label otherwise
/// and the relayed payload. It is dropped if it would go back where it came from, if its
/// hops ran out, or if no route leads to the new point code.
pub proof fn law_translated_goes_to_its_new_code(
    dpc: u32,
    ssn: u8,
    via: Egress,
    g: &Registry,
    m: MsuModel,
    part: Option<Result<MessageModel, Seq<char>>>,
    assoc: Seq<char>,
    own_pc: Option<u32>,
    screen: Option<IsupScreen>,
    rewrite: Option<Seq<char>>,
    payload: Seq<u8>,
)
    ensures
        arrived_over(g, assoc) != Some(via) && relayed(m.payload, part, rewrite) == Relay::Forward(
            payload,
        ) ==> acted(
            Decision::RouteTo { dpc, ssn, via: Some(via) },
            g,
            m,
            part,
            assoc,
            own_pc,
            screen,
            rewrite,
        ) == OutcomeModel::Forwarded(
            sent_via(
                g,
                via,
                MsuModel {
                    opc: m.opc,
                    dpc,
                    si: m.si,
                    ni: m.ni,
                    mp: m.mp,
                    sls: m.sls,
                    payload,
                },
            ),
        ),
        arrived_over(g, assoc) == Some(via) ==> acted(
            Decision::RouteTo { dpc, ssn, via: Some(via) },
            g,
            m,
            part,
            assoc,
            own_pc,
            screen,
            rewrite,
        ) == OutcomeModel::Dropped(CauseModel::Reflected(via), Seq::empty()),
        acted(
            Decision::RouteTo { dpc, ssn, via: None },
            g,
            m,
            part,
            assoc,
            own_pc,
            screen,
            rewrite,
        ) == OutcomeModel::Dropped(CauseModel::NoRoute { dpc }, Seq::empty()),
{
}

/// A message whose hops ran out is dropped; its return, if there is one, goes out over
/// what it arrived over.
pub proof fn law_exhausted_goes_back_where_it_came_from(
    dpc: u32,
    ssn: u8,
    via: Egress,
    g: &Registry,
    m: MsuModel,
    msg: MessageModel,
    assoc: Seq<char>,
    own_pc: Option<u32>,
    screen: Option<IsupScreen>,
    rewrite: Option<Seq<char>>,
)
    requires
        msg.hop_counter is Some,
        msg.hop_counter->Some_0 <= 1,
        arrived_over(g, assoc) != Some(via),
    ensures
        ({
            let done = acted(
                Decision::RouteTo { dpc, ssn, via: Some(via) },
                g,
                m,
                Some(Ok(msg)),
                assoc,
                own_pc,
                screen,
                rewrite,
            );
            &&& done is Dropped
            &&& done->Dropped_0 is HopExhausted
            &&& arrived_over(g, assoc) is None || violation_unit(m, msg, own_pc) is None
                ==> done->Dropped_1.len() == 0
            &&& arrived_over(g, assoc) is Some && violation_unit(m, msg, own_pc) is Some
                ==> done->Dropped_1 == sent_via(
                g,
                arrived_over(g, assoc)->Some_0,
                violation_unit(m, msg, own_pc)->Some_0,
            )
        }),
{
}

/// A unit that ends here is delivered as it came, with the association that it came
/// over; every other decision drops it and says why.
pub proof fn law_other_decisions(
    d: Decision,
    g: &Registry,
    m: MsuModel,
    part: Option<Result<MessageModel, Seq<char>>>,
    assoc: Seq<char>,
    own_pc: Option<u32>,
    screen: Option<IsupScreen>,
    rewrite: Option<Seq<char>>,
)
    ensures
        ({
            let done = acted(d, g, m, part, assoc, own_pc, screen, rewrite);
            &&& d is Local ==> done == OutcomeModel::Delivered(m, assoc)
            &&& d is CrossTenant ==> done == OutcomeModel::Dropped(
                CauseModel::CrossTenant { tenant: d->tenant },
                Seq::empty(),
            )
            &&& d is Python ==> done == OutcomeModel::Dropped(
                CauseModel::Hook { hook: d->hook },
                Seq::empty(),
            )
            &&& d is Drop ==> done == OutcomeModel::Dropped(
                CauseModel::Routing { reason: d->reason },
                Seq::empty(),
            )
        }),
{
}

/// A unit that claims to come from our own point code is dropped as a loop; any other is
/// routed in the registry's tenant, and what is decided is done.
pub proof fn law_dispatch_follows_the_router(
    ts: Runtimes,
    g: &Registry,
    m: MsuModel,
    part: Option<Result<MessageModel, Seq<char>>>,
    view: Option<ViewModel>,
    assoc: Seq<char>,
)
    requires
        ts.contains_key(g.tenant_id()),
    ensures
        m.opc == ts[g.tenant_id()].point_code ==> dispatched(ts, g, m, part, view, assoc)
            == OutcomeModel::Dropped(CauseModel::OwnOpc, Seq::empty()),
        m.opc != ts[g.tenant_id()].point_code ==> dispatched(ts, g, m, part, view, assoc) == acted(
            decision_in(ts, g.tenant_id(), arrival_of(m, part, view)),
            g,
            m,
            part,
            assoc,
            Some(ts[g.tenant_id()].point_code),
            ts[g.tenant_id()].isup,
            rewrite_in(ts, g.tenant_id(), arrival_of(m, part, view)),
        ),
{
}

// ── Frames ──────────────────────────────────────────────────────────────────

/// A unit goes out in one frame for each chosen association, in order, on the payload
/// stream, framed for the association's adaptation and stamped with the choice's routing
/// context. A unit that SUA cannot carry is left out.
pub proof fn law_one_frame_for_each_choice(m: MsuModel, cs: Seq<Choice>, n: int)
    requires
        0 <= n <= cs.len(),
    ensures
        (forall|i: int| 0 <= i < n ==> (#[trigger] cs[i]).adaptation != Adaptation::Sua) ==> {
            &&& frames_for(m, cs, n).len() == n
            &&& forall|i: int|
                0 <= i < n ==> {
                    let f = #[trigger] frames_for(m, cs, n)[i];
                    &&& f.assoc == cs[i].assoc
                    &&& f.stream == 1
                    &&& cs[i].adaptation == Adaptation::M3ua ==> f.ppid == 3 && f.bytes
                        == m3ua_data_octets(m, cs[i].routing_context)
                    &&& cs[i].adaptation == Adaptation::M2pa ==> f.ppid == 5 && f.bytes
                        == m2pa_frame(m)
                }
        },
        frames_for(m, cs, n).len() <= n,
    decreases n,
{
    if n > 0 {
        law_one_frame_for_each_choice(m, cs, n - 1);
        if forall|i: int| 0 <= i < n ==> (#[trigger] cs[i]).adaptation != Adaptation::Sua {
            assert(cs[n - 1].adaptation != Adaptation::Sua);
            let before = frames_for(m, cs, n - 1);
            let all = frames_for(m, cs, n);
            assert(all.len() == n);
            assert forall|i: int| 0 <= i < n - 1 implies #[trigger] all[i] == before[i] by {}
        }
    }
}

/// What goes out over an egress goes to the associations that are selected for it by the
/// unit's link selection.
pub proof fn law_egress_is_selected_by_link(g: &Registry, via: Egress, m: MsuModel)
    ensures
        sent_via(g, via, m) == frames_for(
            m,
            selection(g, via, m.sls),
            selection(g, via, m.sls).len() as int,
        ),
{
}

// ── Counts ──────────────────────────────────────────────────────────────────

/// The cell in which a dropped unit is counted as a loop.
pub open spec fn loop_cell(o: OutcomeModel) -> Option<int> {
    if o is Dropped && o->Dropped_0 is OwnOpc {
        Some(0)
    } else if o is Dropped && o->Dropped_0 is Reflected {
        Some(1)
    } else if o is Dropped && o->Dropped_0 is HopExhausted {
        Some(2)
    } else {
        None
    }
}

/// The cell in which a dropped unit is counted as screened.
pub open spec fn screen_cell(o: OutcomeModel) -> Option<int> {
    if o is Dropped && o->Dropped_0 is Screened {
        let v = o->Dropped_0->Screened_0;
        if v is BlockRule {
            Some(0)
        } else if v is BlockDefault {
            Some(1)
        } else if v is BlockUndecoded {
            Some(2)
        } else {
            None
        }
    } else {
        None
    }
}

/// A unit counts once as received under its service indicator, once as a loop if it was
/// dropped as one, under the kind of loop, and once as screened if it was, under the
/// reason. Nothing else of these moves.
pub proof fn law_dispatch_is_counted(
    before: Metrics,
    after: Metrics,
    ts: Runtimes,
    tenant: Seq<char>,
    m: MsuModel,
    arrival: Arrival,
    o: OutcomeModel,
    i: int,
)
    requires
        dispatch_counted(before, after, ts, tenant, m, arrival, o),
        before.msu_rx@.len() == 16,
        before.loops@.len() == 3,
        before.screened@.len() == 3,
        m.si < 16,
    ensures
        0 <= i < 16 ==> after.msu_rx@[i] == if i == m.si {
            next(before.msu_rx@[i])
        } else {
            before.msu_rx@[i]
        },
        after.msu_tx == before.msu_tx,
        0 <= i < 3 ==> after.loops@[i] == if loop_cell(o) == Some(i) {
            next(before.loops@[i])
        } else {
            before.loops@[i]
        },
        0 <= i < 3 ==> after.screened@[i] == if screen_cell(o) == Some(i) {
            next(before.screened@[i])
        } else {
            before.screened@[i]
        },
        after.active == before.active,
        after.abort_counts == before.abort_counts,
{
}

/// What `act` counts of an outcome is its loop and its screening, once.
pub proof fn law_outcome_is_counted(before: Metrics, after: Metrics, o: OutcomeModel, i: int)
    requires
        outcome_counted(before, after, o),
        before.loops@.len() == 3,
        before.screened@.len() == 3,
        0 <= i < 3,
    ensures
        after.loops@[i] == if loop_cell(o) == Some(i) {
            next(before.loops@[i])
        } else {
            before.loops@[i]
        },
        after.screened@[i] == if screen_cell(o) == Some(i) {
            next(before.screened@[i])
        } else {
            before.screened@[i]
        },
        after.msu_rx == before.msu_rx,
        after.msu_tx == before.msu_tx,
        after.translations == before.translations,
        after.errors == before.errors,
        after.rule_hits == before.rule_hits,
        after.active == before.active,
        after.abort_counts == before.abort_counts,
{
}

/// A dispatch moves only groups of its own tenant, and none if the unit claims to come
/// from our own point code.
pub proof fn law_dispatch_moves_groups_only(
    before: Router,
    after: Router,
    tenant: Seq<char>,
    m: MsuModel,
    arrival: Arrival,
    other: Seq<char>,
)
    requires
        dispatch_moved(before, after, tenant, m, arrival),
    ensures
        !before.runtimes().contains_key(tenant) ==> after == before,
        before.runtimes().contains_key(tenant) && before.runtimes()[tenant].point_code == m.opc
            ==> after == before,
        other != tenant && before.runtimes().contains_key(other) ==> after.runtimes().contains_key(
            other,
        ) && after.runtimes()[other] == before.runtimes()[other],
        before.runtimes().contains_key(tenant) && before.runtimes()[tenant].point_code != m.opc
            ==> {
            let a = after.runtimes()[tenant];
            let b = before.runtimes()[tenant];
            &&& a.gtt.group_map() == groups_after(&b, arrival)
            &&& a.gtt.rule_list() == b.gtt.rule_list()
            &&& a.gtt.owned() == b.gtt.owned()
            &&& a.routes == b.routes && a.route_state == b.route_state && a.content == b.content
            &&& a.isup == b.isup && a.converter == b.converter && a.point_code == b.point_code
        },
{
}

} // verus!
