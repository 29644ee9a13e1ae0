//! Laws of the views: what contracts say of a record or of an outcome is what the record
//! or the outcome holds.
use crate::content::view::{view_of, MapView};
use crate::dialogue::engine::{ageing, sent_units};
use crate::dialogue::handle::{outgoing_models, some_unit, units, Addressing};
use crate::dialogue::turn::{peer_models, IncomingOp, PeerComponent, PeerTurn};
use crate::error::Error;
use crate::isup::{IsupMessage, Screened, Verdict};
use crate::metrics::Metrics;
use crate::mtp3::route::{egress_of, Candidate, Destination, Egress};
use crate::point_code::{outcome, PointCode, PointCodeError, PointCodeFault};
use crate::routing::{Decision, Inbound, RouteDecision};
use crate::sccp::gtt::{translated, GttResult, GttSelector, Translated};
use crate::sccp::message::{
    message_outcome, octets_outcome, MessageModel, PartyAddress, PartyTitle, TitleModel, Unitdata,
};
use crate::transaction::{
    arcs, component_models, octets, staged_models, transaction_outcome, ComponentModel,
    ContextModel, Outgoing, OutgoingModel, Staged, StagedModel, TcComponent, TcContext, TcMessage,
    TcModel,
};
use crate::transport::association::{
    controls, AspModel, AspReaction, Received, SgAction, SgModel,
};
use crate::transport::forward::{
    frame_models, frame_of, part_outcome, CauseModel, DropCause, Frame, HopStep, Outcome,
    OutcomeModel, Relay,
};
use crate::transport::msu::{
    frame_outcome, maybe_msu_outcome, msu_outcome, Msu, MsuModel, TransportError, TransportFault,
};
use crate::transport::node::{outcome_of, reply_of, sent_by, unit_in};
use crate::transport::registry::{choices, Selected};
use crate::transport::wire::{Control, ControlModel, M2paFrame, M2paModel, M3uaFrame};
use vstd::prelude::*;

verus! {

/// A unit is seen field by field.
pub proof fn law_unit_is_seen(m: Msu)
    ensures
        m@.opc == m.opc,
        m@.dpc == m.dpc,
        m@.si == m.si,
        m@.ni == m.ni,
        m@.mp == m.mp,
        m@.sls == m.sls,
        m@.payload == m.payload@,
{
}

/// An SCCP message and its parties are seen field by field.
pub proof fn law_message_is_seen(u: Unitdata, a: PartyAddress)
    ensures
        u@.form == u.form,
        u@.head == u.head,
        u@.hop_counter == u.hop_counter,
        u@.called_party == u.called_party@,
        u@.calling_party == u.calling_party@,
        u@.data == u.data@,
        u@.optional_part == u.optional_part@,
        a@.route_on_ssn == a.route_on_ssn,
        a@.point_code == a.point_code,
        a@.ssn == a.ssn,
        a@.global_title == a.global_title@,
{
}

/// A title is seen field by field.
pub proof fn law_title_is_seen(t: PartyTitle)
    ensures
        t is NoTitle ==> t@ is NoTitle,
        t is Gt0001 ==> t@ == (TitleModel::Gt0001 {
            nature_of_address: t->Gt0001_nature_of_address,
            odd_even: t->odd_even,
            digits: t->Gt0001_digits@,
        }),
        t is Gt0010 ==> t@ == (TitleModel::Gt0010 {
            translation_type: t->Gt0010_translation_type,
            digits: t->Gt0010_digits@,
        }),
        t is Gt0011 ==> t@ == (TitleModel::Gt0011 {
            translation_type: t->Gt0011_translation_type,
            numbering_plan: t->Gt0011_numbering_plan,
            encoding_scheme: t->Gt0011_encoding_scheme,
            digits: t->Gt0011_digits@,
        }),
        t is Gt0100 ==> t@ == (TitleModel::Gt0100 {
            translation_type: t->Gt0100_translation_type,
            numbering_plan: t->Gt0100_numbering_plan,
            encoding_scheme: t->Gt0100_encoding_scheme,
            nature_of_address: t->Gt0100_nature_of_address,
            digits: t->Gt0100_digits@,
        }),
        t is Gt0001 ==> t@.digits() == Some(t->Gt0001_digits@),
        t is Gt0010 ==> t@.digits() == Some(t->Gt0010_digits@),
        t is Gt0011 ==> t@.digits() == Some(t->Gt0011_digits@),
        t is Gt0100 ==> t@.digits() == Some(t->Gt0100_digits@),
        t is NoTitle ==> t@.digits() is None,
{
}

/// A title to translate, a message to route and a view of its content are seen field by
/// field.
pub proof fn law_arrival_is_seen(s: GttSelector, m: Inbound, v: MapView)
    ensures
        s@.digits == s.digits@,
        s@.gti == s.gti,
        s@.tt == s.tt,
        s@.np == s.np,
        s@.nai == s.nai,
        m@.dpc == m.dpc,
        m@.called_ssn == m.called_ssn,
        m.cdpa matches Some(t) ==> m@.cdpa == Some(t@),
        m.cdpa is None ==> m@.cdpa is None,
        m.view matches Some(w) ==> m@.view == Some(w@),
        m.view is None ==> m@.view is None,
        v@.operation == v.operation,
        v.imsi matches Some(t) ==> v@.imsi == Some(t@),
        v.imsi is None ==> v@.imsi is None,
        v.msisdn matches Some(t) ==> v@.msisdn == Some(t@),
        v.msisdn is None ==> v@.msisdn is None,
        v.cgpa_gt matches Some(t) ==> v@.cgpa_gt == Some(t@),
        v.cgpa_gt is None ==> v@.cgpa_gt is None,
        v.cdpa_gt matches Some(t) ==> v@.cdpa_gt == Some(t@),
        v.cdpa_gt is None ==> v@.cdpa_gt is None,
        view_of(Some(v)) == Some(v@),
        view_of(None) is None,
{
}

/// A decision, a translation and a destination are seen as what they are.
pub proof fn law_decision_is_seen(d: RouteDecision, r: GttResult, e: Destination, c: Candidate)
    ensures
        d matches RouteDecision::Route { via } ==> d@ == (Decision::Route { via: via@ }),
        d matches RouteDecision::RouteTo { dpc, ssn, via } ==> d@ == (Decision::RouteTo {
            dpc,
            ssn,
            via: egress_of(via),
        }),
        d is Local ==> d@ is Local,
        d matches RouteDecision::CrossTenant { tenant, dpc, ssn, conversion } ==> d@ == (
        Decision::CrossTenant { tenant: tenant@, dpc, ssn, conversion }),
        d matches RouteDecision::Python { hook } ==> d@ == (Decision::Python { hook: hook@ }),
        d matches RouteDecision::Drop { reason } ==> d@ == (Decision::Drop { reason: reason@ }),
        r matches GttResult::Dpc { dpc, ssn } ==> r@ == (Translated::Dpc { dpc, ssn }),
        r is Local ==> r@ is Local,
        r matches GttResult::Tenant { tenant, dpc, ssn } ==> r@ == (Translated::Tenant {
            tenant: tenant@,
            dpc,
            ssn,
        }),
        translated(Some(r)) == Some(r@),
        translated(None) is None,
        e matches Destination::ApplicationServer(n) ==> e@ == Egress::ApplicationServer(n@),
        e matches Destination::Linkset(n) ==> e@ == Egress::Linkset(n@),
        egress_of(Some(e)) == Some(e@),
        egress_of(None) is None,
        c@.dest == c.dest@,
        c@.priority == c.priority,
{
}

/// A transaction message and its components are seen field by field, in order.
pub proof fn law_transaction_is_seen(t: TcMessage, c: TcComponent, x: TcContext, i: int)
    ensures
        t@.kind == t.kind,
        t@.otid == t.otid@,
        t@.dtid == t.dtid@,
        t@.context == t.context@,
        t@.components.len() == t.components@.len(),
        0 <= i < t.components@.len() ==> t@.components[i] == t.components@[i]@,
        x is Absent ==> x@ is Absent,
        x matches TcContext::Request(a) ==> x@ == ContextModel::Request(a@),
        x matches TcContext::Response(a) ==> x@ == ContextModel::Response(a@),
        c matches TcComponent::Invoke { invoke_id, operation, parameter } ==> c@ == (
        ComponentModel::Invoke { invoke_id, operation, parameter: octets(parameter) }),
        c matches TcComponent::ResultWith { invoke_id, operation, parameter } ==> c@ == (
        ComponentModel::ResultWith { invoke_id, operation, parameter: octets(parameter) }),
        c matches TcComponent::ResultEmpty { invoke_id } ==> c@ == (ComponentModel::ResultEmpty {
            invoke_id,
        }),
        c matches TcComponent::Error { invoke_id, error } ==> c@ == (ComponentModel::Error {
            invoke_id,
            error,
        }),
        c matches TcComponent::Reject { invoke_id } ==> c@ == (ComponentModel::Reject { invoke_id }),
{
}

/// What goes out in a transaction is seen field by field, in order.
pub proof fn law_outgoing_is_seen(o: Outgoing, c: Staged, s: Seq<Staged>, v: Vec<u8>, i: int)
    ensures
        o matches Outgoing::Begin { otid, context, components } ==> o@ == (OutgoingModel::Begin {
            otid: otid@,
            context: arcs(context),
            components: staged_models(components@),
        }),
        o matches Outgoing::Continue { otid, dtid, context, components } ==> o@ == (
        OutgoingModel::Continue {
            otid: otid@,
            dtid: dtid@,
            context: arcs(context),
            components: staged_models(components@),
        }),
        o matches Outgoing::End { dtid, context, components } ==> o@ == (OutgoingModel::End {
            dtid: dtid@,
            context: arcs(context),
            components: staged_models(components@),
        }),
        o matches Outgoing::Abort { dtid, by } ==> o@ == (OutgoingModel::Abort { dtid: dtid@, by }),
        c matches Staged::Invoke { invoke_id, operation, parameter } ==> c@ == (
        StagedModel::Invoke { invoke_id, operation, parameter: octets(parameter) }),
        c matches Staged::ResultLast { invoke_id, operation, parameter } ==> c@ == (
        StagedModel::ResultLast { invoke_id, operation, parameter: octets(parameter) }),
        c matches Staged::Error { invoke_id, error } ==> c@ == (StagedModel::Error {
            invoke_id,
            error,
        }),
        staged_models(s).len() == s.len(),
        0 <= i < s.len() ==> staged_models(s)[i] == s[i]@,
        octets(Some(v)) == Some(v@),
        octets(None) is None,
{
}

/// The addressing of a dialogue and what a handler is told are seen field by field.
pub proof fn law_dialogue_is_seen(a: Addressing, op: IncomingOp, t: PeerTurn, c: PeerComponent, i: int)
    ensures
        a@.out_called == a.out_called@,
        a@.out_calling == a.out_calling@,
        a@.opc == a.opc,
        a@.dpc == a.dpc,
        a@.ni == a.ni,
        a@.sls == a.sls,
        op@.operation_code == op.operation_code,
        op@.invoke_id == op.invoke_id,
        op@.argument == octets(op.argument),
        op@.application_context == arcs(op.application_context),
        op@.called_ssn == op.called_ssn,
        op.calling_gt matches Some(s) ==> op@.calling_gt == Some(s@),
        op.calling_gt is None ==> op@.calling_gt is None,
        op.called_gt matches Some(s) ==> op@.called_gt == Some(s@),
        op.called_gt is None ==> op@.called_gt is None,
        t@.is_end == t.is_end,
        t@.components.len() == t.components@.len(),
        0 <= i < t.components@.len() ==> t@.components[i] == t.components@[i]@,
        c is Invoke ==> c@ is Invoke && c@->Invoke_invoke_id == c->Invoke_invoke_id
            && c@->Invoke_operation_code == c->Invoke_operation_code && c@->argument == octets(
            c->argument,
        ),
        c is Result ==> c@ is Result && c@->Result_invoke_id == c->Result_invoke_id
            && c@->Result_operation_code == c->Result_operation_code && c@->parameter == octets(
            c->parameter,
        ),
        c is Error ==> c@ is Error && c@->Error_invoke_id == c->Error_invoke_id && c@->error_code
            == c->error_code,
{
}

/// Lists of units, of frames and of choices are seen one by one, in order, and so is what
/// a sweep sends with the association that it goes to.
pub proof fn law_lists_are_seen(
    u: Seq<Msu>,
    f: Seq<Frame>,
    s: Seq<Selected>,
    p: Seq<(String, Msu)>,
    c: Seq<Control>,
    i: int,
)
    ensures
        units(u).len() == u.len(),
        0 <= i < u.len() ==> units(u)[i] == u[i]@,
        frame_models(f).len() == f.len(),
        0 <= i < f.len() ==> frame_models(f)[i].assoc == f[i].assoc@ && frame_models(f)[i].bytes
            == f[i].bytes@ && frame_models(f)[i].stream == f[i].stream && frame_models(f)[i].ppid
            == f[i].ppid,
        choices(s).len() == s.len(),
        0 <= i < s.len() ==> choices(s)[i].assoc == s[i].assoc@ && choices(s)[i].routing_context
            == s[i].routing_context && choices(s)[i].adaptation == s[i].adaptation,
        sent_units(p).len() == p.len(),
        0 <= i < p.len() ==> sent_units(p)[i].0 == p[i].0@ && sent_units(p)[i].1 == p[i].1@,
        controls(c).len() == c.len(),
        0 <= i < c.len() ==> controls(c)[i] == c[i]@,
{
}

/// Outcomes are seen as what they are: a success as what it gave, a failure as its reason.
pub proof fn law_outcomes_are_seen(
    u: Msu,
    e: TransportError,
    m: Unitdata,
    s: String,
    b: Vec<u8>,
    f: Frame,
    t: TcMessage,
)
    ensures
        msu_outcome(Ok(u)) == Ok::<MsuModel, TransportFault>(u@),
        msu_outcome(Err(e)) == Err::<MsuModel, TransportFault>(e@),
        maybe_msu_outcome(Ok(Some(u))) == Ok::<Option<MsuModel>, TransportFault>(Some(u@)),
        maybe_msu_outcome(Ok(None)) == Ok::<Option<MsuModel>, TransportFault>(None),
        maybe_msu_outcome(Err(e)) == Err::<Option<MsuModel>, TransportFault>(e@),
        frame_outcome(Ok(b)) == Ok::<Seq<u8>, TransportFault>(b@),
        frame_outcome(Err(e)) == Err::<Seq<u8>, TransportFault>(e@),
        message_outcome(Ok(m)) == Ok::<MessageModel, Seq<char>>(m@),
        message_outcome(Err(s)) == Err::<MessageModel, Seq<char>>(s@),
        octets_outcome(Ok(b)) == Ok::<Seq<u8>, Seq<char>>(b@),
        octets_outcome(Err(s)) == Err::<Seq<u8>, Seq<char>>(s@),
        transaction_outcome(Ok(t)) == Ok::<TcModel, Seq<char>>(t@),
        transaction_outcome(Err(s)) == Err::<TcModel, Seq<char>>(s@),
        part_outcome(None) is None,
        part_outcome(Some(Ok(m))) == Some(Ok::<MessageModel, Seq<char>>(m@)),
        part_outcome(Some(Err(s))) == Some(Err::<MessageModel, Seq<char>>(s@)),
        some_unit(Some(u)) == Some(u@),
        some_unit(None) is None,
        frame_of(Some(f)) == Some(f@),
        frame_of(None) is None,
{
}

/// What becomes of a unit is seen as what it is: frames, a delivery with its association,
/// or a drop with its cause and what goes back.
pub proof fn law_outcome_of_a_unit_is_seen(o: Outcome, c: DropCause, h: HopStep, v: Screened)
    ensures
        o matches Outcome::Forwarded(f) ==> o@ == OutcomeModel::Forwarded(frame_models(f@)),
        o matches Outcome::Delivered(d) ==> o@ == OutcomeModel::Delivered(
            d.msu@,
            d.ingress_assoc@,
        ),
        o matches Outcome::Dropped(x, f) ==> o@ == OutcomeModel::Dropped(x@, frame_models(f@)),
        outcome_of(Some(o)) == Some(o@),
        outcome_of(None) is None,
        c is OwnOpc ==> c@ is OwnOpc,
        c matches DropCause::Screened(x) ==> c@ == CauseModel::Screened(x@),
        c matches DropCause::Reflected(d) ==> c@ == CauseModel::Reflected(d@),
        c is HopExhausted ==> c@ is HopExhausted,
        c matches DropCause::NoRoute { dpc } ==> c@ == (CauseModel::NoRoute { dpc }),
        c matches DropCause::CrossTenant { tenant } ==> c@ == (CauseModel::CrossTenant {
            tenant: tenant@,
        }),
        c matches DropCause::Hook { hook } ==> c@ == (CauseModel::Hook { hook: hook@ }),
        c matches DropCause::Routing { reason } ==> c@ == (CauseModel::Routing { reason: reason@ }),
        h matches HopStep::Forward(b) ==> h@ == Relay::Forward(b@),
        h matches HopStep::Exhausted(m) ==> h@ == Relay::Exhausted(m@),
        v is Pass ==> v@ is Pass,
        v is BlockDefault ==> v@ is BlockDefault,
        v matches Screened::PassUndecoded { error } ==> v@ == (Verdict::PassUndecoded {
            error: error@,
        }),
        v matches Screened::BlockRule { rule } ==> v@ == (Verdict::BlockRule { rule: rule@ }),
        v matches Screened::BlockUndecoded { error } ==> v@ == (Verdict::BlockUndecoded {
            error: error@,
        }),
{
}

/// What an association does and receives is seen as what it is: a reply is the one control
/// message sent, and nothing else sends one; a payload that did not read gives no unit.
pub proof fn law_reaction_is_seen(a: SgAction, b: AspReaction, r: Received)
    ensures
        a matches SgAction::Reply(c) ==> a@ == SgModel::Reply(c@) && reply_of(a@) == seq![c@],
        a is Deliver ==> a@ is Deliver && reply_of(a@).len() == 0,
        a is Ignore ==> a@ is Ignore && reply_of(a@).len() == 0,
        b matches AspReaction::Send(c) ==> b@ == AspModel::Send(c@) && sent_by(b@) == seq![c@],
        b is Activate ==> b@ is Activate && sent_by(b@).len() == 0,
        b is Deactivate ==> b@ is Deactivate && sent_by(b@).len() == 0,
        b is Deliver ==> b@ is Deliver && sent_by(b@).len() == 0,
        b is Manage ==> b@ is Manage && sent_by(b@).len() == 0,
        b is Ignore ==> b@ is Ignore && sent_by(b@).len() == 0,
        r.unit matches Ok(u) ==> unit_in(r) == Some(u@),
        r.unit is Err ==> unit_in(r) is None,
{
}

/// Control messages and frames are seen field by field.
pub proof fn law_control_is_seen(c: Control, f: M3uaFrame, l: M2paFrame)
    ensures
        c matches Control::AspUp { asp_id } ==> c@ == (ControlModel::AspUp { asp_id }),
        c is AspUpAck ==> c@ is AspUpAck,
        c is AspDownAck ==> c@ is AspDownAck,
        c is HeartbeatAck ==> c@ is HeartbeatAck,
        c matches Control::AspActive { traffic_mode, routing_context } ==> c@ == (
        ControlModel::AspActive { traffic_mode, routing_context }),
        c matches Control::AspActiveAck { routing_context } ==> c@ == (
        ControlModel::AspActiveAck { routing_context }),
        c matches Control::AspInactiveAck { routing_context } ==> c@ == (
        ControlModel::AspInactiveAck { routing_context }),
        c matches Control::Dava { routing_context, affected } ==> c@ == (ControlModel::Dava {
            routing_context,
            affected: affected@,
        }),
        c matches Control::Duna { routing_context, affected } ==> c@ == (ControlModel::Duna {
            routing_context,
            affected: affected@,
        }),
        f@.class == f.class,
        f@.kind == f.kind,
        f@.routing_context == f.routing_context,
        f@.affected == f.affected@,
        f.data matches Ok(m) ==> f@.data == Ok::<MsuModel, Seq<char>>(m@),
        f.data matches Err(e) ==> f@.data == Err::<MsuModel, Seq<char>>(e@),
        l matches M2paFrame::UserData { bsn, fsn, msu } ==> l@ == (M2paModel::UserData {
            bsn,
            fsn,
            msu: msu@,
        }),
        l matches M2paFrame::LinkStatus { bsn, fsn, state } ==> l@ == (M2paModel::LinkStatus {
            bsn,
            fsn,
            state,
        }),
{
}

/// An ISUP message is seen field by field.
pub proof fn law_isup_message_is_seen(m: IsupMessage)
    ensures
        m@.message_type == m.message_type,
        m.called matches Some(s) ==> m@.called == Some(s@),
        m.called is None ==> m@.called is None,
        m.calling matches Some(s) ==> m@.calling == Some(s@),
        m.calling is None ==> m@.calling is None,
{
}

/// What a sweep counts is the invokes that timed out by operation, the dialogues that
/// timed out, the open dialogues, and the aborts.
pub proof fn law_ageing_is_seen(m: Metrics)
    ensures
        ageing(m).operations == m.operation_timeouts@,
        ageing(m).timeouts == m.timeouts,
        ageing(m).active == m.active,
        ageing(m).aborts == m.abort_counts@,
{
}

/// Lists of components and of messages are seen one by one, in order.
pub proof fn law_components_are_seen(
    t: Seq<TcComponent>,
    o: Seq<Outgoing>,
    p: Seq<PeerComponent>,
    i: int,
)
    ensures
        component_models(t).len() == t.len(),
        0 <= i < t.len() ==> component_models(t)[i] == t[i]@,
        outgoing_models(o).len() == o.len(),
        0 <= i < o.len() ==> outgoing_models(o)[i] == o[i]@,
        peer_models(p).len() == p.len(),
        0 <= i < p.len() ==> peer_models(p)[i] == p[i]@,
{
}

/// An error's text starts with where it arose and ends with its reason.
pub proof fn law_error_text_names_its_layer(e: TransportError)
    ensures
        e matches TransportError::Sctp(s) ==> e@.text() == "sctp: "@ + s@,
        e matches TransportError::M3ua(s) ==> e@.text() == "m3ua: "@ + s@,
        e matches TransportError::M2pa(s) ==> e@.text() == "m2pa: "@ + s@,
        e matches TransportError::Sua(s) ==> e@.text() == "sua: "@ + s@,
        e matches TransportError::Sccp(s) ==> e@.text() == "sccp: "@ + s@,
        e matches TransportError::Framing(s) ==> e@.text() == "framing: "@ + s@,
        e matches TransportError::Config(s) ==> e@.text() == "config: "@ + s@,
{
}

/// A configuration error's text says what failed and ends with the reason.
pub proof fn law_config_error_text(e: Error, p: PointCodeError)
    ensures
        e matches Error::Io { path, source } ==> e@.text() == "reading config "@ + path@ + ": "@
            + source@,
        e matches Error::Yaml(s) ==> e@.text() == "parsing config: "@ + s@,
        e matches Error::PointCode(c) ==> e@.text() == "invalid point code: "@ + c@.text(),
        e matches Error::Validation(s) ==> e@.text() == "invalid config: "@ + s@,
        p matches PointCodeError::NotANumber(s) ==> p@.text() == "point code component '"@ + s@
            + "' is not a number"@,
        p matches PointCodeError::OutOfRange { value, bits, variant } ==> p@
            == (PointCodeFault::OutOfRange { value, bits, variant }),
        p matches PointCodeError::ComponentTooLarge { value, bits, variant } ==> p@
            == (PointCodeFault::ComponentTooLarge { value, bits, variant }),
        p matches PointCodeError::Components(s, n) ==> p@ == PointCodeFault::Components(s@, n),
        outcome(Err(p)) == Err::<PointCode, PointCodeFault>(p@),
        forall|c: PointCode| #[trigger] outcome(Ok(c)) == Ok::<PointCode, PointCodeFault>(c),
{
}

} // verus!
