//! The per-message pipeline: an inbound unit becomes a routing decision, and the
//! decision becomes frames to send, a local delivery, or a drop with its cause.
use crate::config::Adaptation;
use crate::content::view::{decode_map_view, map_view, text_of, view_of, MapView, ViewModel};
use crate::isup::{isup_decoded, IsupScreen, Screened, Verdict};
use crate::metrics::{
    loop_kind_slot, msu, next, record_isup_screened, record_loop, screen_reason_slot, Dir, LoopKind,
    Metrics, ScreenReason,
};
use crate::mtp3::route::{egress_of, Destination, Egress};
use crate::routing::{
    bumped, counted, decision_in, error_counted, groups_moved, hit_counted, kind_counted,
    rewrite_in, Arrival, Decision, Inbound, RouteDecision, Router,
};
use crate::sccp::gtt::{GttSelector, Title};
use crate::sccp::message::{
    message_outcome, reads_back, sccp_decoded, sccp_encoded, MessageModel, PartyTitle, SccpForm,
    SccpHead, TitleModel, Unitdata,
};
use crate::tenant::Runtimes;
use crate::transaction::transaction_in_octets;
use crate::transport::framing::{
    m2pa_frame, sua_frame_of, wrap_m2pa, wrap_m3ua, wrap_sua, SI_ISUP, SI_SCCP,
};
use crate::transport::msu::{copy_octets, Msu, MsuModel};
use crate::transport::registry::{arrived_over, choices, selection, Choice, Registry};
use crate::transport::wire::m3ua_data_octets;
use vstd::prelude::*;
use vstd::string::*;

verus! {

/// The SCTP stream of payload messages.
pub const DATA_STREAM: u16 = 1;

/// The SCTP payload protocol identifier of M3UA.
pub const PPID_M3UA: u32 = 3;

/// The SCTP payload protocol identifier of M2PA.
pub const PPID_M2PA: u32 = 5;

/// The SCCP message handling that asks for a return on error.
pub const SCCP_RETURN_ON_ERROR: u8 = 8;

/// The SCCP return cause of a hop counter violation.
pub const HOP_COUNTER_VIOLATION: u8 = 12;

/// The hop counter that a new extended or long message starts with.
pub const INITIAL_HOP_COUNTER: u8 = 15;

// ── From a unit to what the router reads ────────────────────────────────────

/// The fields of a global title that translation rules match on.
pub open spec fn title_of(t: TitleModel) -> Title {
    match t {
        TitleModel::Gt0100 {
            translation_type,
            numbering_plan,
            encoding_scheme,
            nature_of_address,
            digits,
        } => Title {
            digits,
            gti: Some(4),
            tt: Some(translation_type),
            np: Some(numbering_plan),
            nai: Some(nature_of_address),
        },
        TitleModel::Gt0011 { translation_type, numbering_plan, encoding_scheme, digits } => Title {
            digits,
            gti: Some(3),
            tt: Some(translation_type),
            np: Some(numbering_plan),
            nai: None,
        },
        TitleModel::Gt0010 { translation_type, digits } => Title {
            digits,
            gti: Some(2),
            tt: Some(translation_type),
            np: None,
            nai: None,
        },
        TitleModel::Gt0001 { nature_of_address, odd_even, digits } => Title {
            digits,
            gti: Some(1),
            tt: None,
            np: None,
            nai: Some(nature_of_address),
        },
        TitleModel::NoTitle => Title {
            digits: Seq::empty(),
            gti: None,
            tt: None,
            np: None,
            nai: None,
        },
    }
}

/// The fields of a global title that translation rules match on.
pub fn selector_from_gt(gt: &PartyTitle) -> (r: GttSelector)
    ensures
        r@ == title_of(gt@),
{
    match gt {
        PartyTitle::Gt0100 {
            translation_type,
            numbering_plan,
            encoding_scheme: _,
            nature_of_address,
            digits,
        } => GttSelector {
            digits: digits.clone(),
            gti: Some(4),
            tt: Some(*translation_type),
            np: Some(*numbering_plan),
            nai: Some(*nature_of_address),
        },
        PartyTitle::Gt0011 {
            translation_type,
            numbering_plan,
            encoding_scheme: _,
            digits,
        } => GttSelector {
            digits: digits.clone(),
            gti: Some(3),
            tt: Some(*translation_type),
            np: Some(*numbering_plan),
            nai: None,
        },
        PartyTitle::Gt0010 { translation_type, digits } => GttSelector {
            digits: digits.clone(),
            gti: Some(2),
            tt: Some(*translation_type),
            np: None,
            nai: None,
        },
        PartyTitle::Gt0001 { nature_of_address, odd_even: _, digits } => GttSelector {
            digits: digits.clone(),
            gti: Some(1),
            tt: None,
            np: None,
            nai: Some(*nature_of_address),
        },
        PartyTitle::NoTitle => GttSelector::default(),
    }
}

/// What a unit's payload decodes to, where it is SCCP.
pub open spec fn sccp_part(m: MsuModel) -> Option<Result<MessageModel, Seq<char>>> {
    if m.si == SI_SCCP {
        Some(sccp_decoded(m.payload))
    } else {
        None
    }
}

/// The outcome of decoding an optional payload.
pub open spec fn part_outcome(o: Option<Result<Unitdata, String>>) -> Option<
    Result<MessageModel, Seq<char>>,
> {
    match o {
        Some(r) => Some(message_outcome(r)),
        None => None,
    }
}

/// What the router reads of a unit, given its decoded payload and its view: the
/// point code of any unit, and the called party of an SCCP one.
pub open spec fn arrival_of(
    m: MsuModel,
    part: Option<Result<MessageModel, Seq<char>>>,
    view: Option<ViewModel>,
) -> Arrival {
    match part {
        Some(Ok(msg)) => Arrival {
            dpc: m.dpc,
            cdpa: if msg.called_party.global_title.digits() is Some {
                Some(title_of(msg.called_party.global_title))
            } else {
                None
            },
            called_ssn: msg.called_party.ssn,
            view,
        },
        _ => Arrival { dpc: m.dpc, cdpa: None, called_ssn: None, view },
    }
}

/// What the router reads of a unit, given its decoded payload and its view.
pub fn inbound_of(msu: &Msu, part: &Option<Result<Unitdata, String>>, view: Option<MapView>) -> (r:
    Inbound)
    ensures
        r@ == arrival_of(msu@, part_outcome(*part), view_of(view)),
{
    match part {
        Some(Ok(msg)) => {
            let cdpa = if msg.called_party.global_title.digits().is_some() {
                Some(selector_from_gt(&msg.called_party.global_title))
            } else {
                None
            };
            Inbound { dpc: msu.dpc, cdpa, called_ssn: msg.called_party.ssn, view }
        },
        _ => Inbound { dpc: msu.dpc, cdpa: None, called_ssn: None, view },
    }
}

/// Decodes a unit's payload where it is SCCP.
pub fn decode_part(msu: &Msu) -> (r: Option<Result<Unitdata, String>>)
    ensures
        part_outcome(r) == sccp_part(msu@),
        r matches Some(Ok(u)) ==> u.wf(),
{
    if msu.si == SI_SCCP {
        Some(Unitdata::decode(msu.payload.as_slice()))
    } else {
        None
    }
}

/// What the router reads of a unit: its point code, and the called party of an
/// SCCP payload of any connectionless type.
pub fn inbound_from_msu(msu: &Msu) -> (r: Inbound)
    ensures
        r@ == arrival_of(msu@, sccp_part(msu@), None),
{
    let part = decode_part(msu);
    inbound_of(msu, &part, None)
}

// ── The hop counter ─────────────────────────────────────────────────────────

/// What becomes of an SCCP message at a translation.
pub enum HopStep {
    /// Forward with this payload.
    Forward(Vec<u8>),
    /// The hop counter ran out.
    Exhausted(Unitdata),
}

/// What a [`HopStep`] says.
pub enum Relay {
    Forward(Seq<u8>),
    Exhausted(MessageModel),
}

impl View for HopStep {
    type V = Relay;

    open spec fn view(&self) -> Relay {
        match *self {
            HopStep::Forward(v) => Relay::Forward(v@),
            HopStep::Exhausted(m) => Relay::Exhausted(m@),
        }
    }
}

/// The message as it goes on from a translation: with the digits of a rewrite in
/// its called title, and with a hop counter above 1 one less.
pub open spec fn onward(msg: MessageModel, rewrite: Option<Seq<char>>) -> MessageModel {
    let addressed = match rewrite {
        Some(d) => msg.readdressed(d),
        None => msg,
    };
    match msg.hop_counter {
        Some(hop) => MessageModel { hop_counter: Some((hop - 1) as u8), ..addressed },
        None => addressed,
    }
}

/// What becomes of a payload at a translation. A message with a hop counter above
/// 1 goes on with one less; at 1 or 0 it has run out. The digits of a rewrite
/// replace those of the called title. A message with neither, and a payload that
/// is not SCCP, goes on unchanged, and so does one that does not encode again.
pub open spec fn relayed(
    payload: Seq<u8>,
    part: Option<Result<MessageModel, Seq<char>>>,
    rewrite: Option<Seq<char>>,
) -> Relay {
    match part {
        Some(Ok(msg)) => if msg.hop_counter matches Some(hop) && hop <= 1 {
            Relay::Exhausted(msg)
        } else if msg.hop_counter is None && (rewrite is None
            || msg.called_party.global_title.digits() is None) {
            Relay::Forward(payload)
        } else {
            match sccp_encoded(onward(msg, rewrite)) {
                Ok(bytes) => Relay::Forward(bytes),
                Err(_) => Relay::Forward(payload),
            }
        },
        _ => Relay::Forward(payload),
    }
}

/// Sets the hop counter of the forms that carry one; the short form is left as it
/// is.
pub fn set_hop_counter(msg: &mut Unitdata, hop: u8)
    requires
        old(msg).wf(),
    ensures
        final(msg).wf(),
        *final(msg) == (Unitdata {
            hop_counter: if old(msg).form == SccpForm::Short {
                None
            } else {
                Some(hop)
            },
            ..*old(msg)
        }),
{
    match msg.form {
        SccpForm::Short => {},
        _ => {
            msg.hop_counter = Some(hop);
        },
    }
}

/// Applies the hop counter and a rewrite to a payload at a translation. What goes
/// on, where it was encoded anew and decodes, has the form it had and a hop counter
/// one less than before.
pub fn hop_step(
    payload: &Vec<u8>,
    part: Option<Result<Unitdata, String>>,
    rewrite: &Option<String>,
) -> (r: HopStep)
    requires
        part matches Some(Ok(u)) ==> u.wf(),
    ensures
        r@ == relayed(payload@, part_outcome(part), text_of(*rewrite)),
        (part matches Some(Ok(u)) && (u.hop_counter matches Some(hop) && hop > 1) && sccp_encoded(
            onward(u@, text_of(*rewrite)),
        ) is Ok) ==> (part matches Some(Ok(u)) && (r matches HopStep::Forward(v) && reads_back(
            v@,
            u.form,
            Some((u.hop_counter->Some_0 - 1) as u8),
            u.head is Data,
        ))),
{
    match part {
        Some(Ok(mut msg)) => {
            let ghost before = msg@;
            match msg.hop_counter {
                Some(hop) => {
                    if hop <= 1 {
                        return HopStep::Exhausted(msg);
                    }
                    set_hop_counter(&mut msg, hop - 1);
                },
                None => {
                    if rewrite.is_none() || msg.called_party.global_title.digits().is_none() {
                        return HopStep::Forward(copy_octets(payload));
                    }
                },
            }
            match rewrite {
                Some(digits) => {
                    msg.readdress(digits.as_str());
                },
                None => {},
            }
            proof {
                assert(msg@ == onward(before, text_of(*rewrite)));
            }
            match msg.encode() {
                Ok(bytes) => HopStep::Forward(bytes),
                Err(_) => HopStep::Forward(copy_octets(payload)),
            }
        },
        _ => HopStep::Forward(copy_octets(payload)),
    }
}

/// The message that returns an exhausted one: the service message of the same
/// form, addressed back to its originator, with the hop counter violation.
pub open spec fn violation_message(msg: MessageModel) -> MessageModel {
    MessageModel {
        form: msg.form,
        head: SccpHead::Service { return_cause: HOP_COUNTER_VIOLATION },
        hop_counter: Some(INITIAL_HOP_COUNTER),
        called_party: msg.calling_party,
        calling_party: msg.called_party,
        data: msg.data,
        optional_part: Seq::empty(),
    }
}

/// An exhausted message is returned only if it carries data and asked for it.
pub open spec fn asks_return(msg: MessageModel) -> bool {
    msg.form != SccpForm::Short && (msg.head matches SccpHead::Data {
        protocol_class,
        message_handling,
    } && message_handling == SCCP_RETURN_ON_ERROR)
}

/// The unit that returns an exhausted message: from our point code to whoever sent
/// it, with the rest of the label kept.
pub open spec fn violation_unit(m: MsuModel, msg: MessageModel, own_pc: Option<u32>) -> Option<
    MsuModel,
> {
    if asks_return(msg) {
        match sccp_encoded(violation_message(msg)) {
            Ok(payload) => Some(
                MsuModel {
                    opc: match own_pc {
                        Some(pc) => pc,
                        None => m.dpc,
                    },
                    dpc: m.opc,
                    payload,
                    ..m
                },
            ),
            Err(_) => None,
        }
    } else {
        None
    }
}

/// What an optional unit holds.
pub open spec fn unit_of(o: Option<Msu>) -> Option<MsuModel> {
    match o {
        Some(m) => Some(m@),
        None => None,
    }
}

/// The unit that returns an exhausted message, if it asked to be returned. A
/// service message is never returned.
pub fn hop_violation_return(inbound: &Msu, sccp: &Unitdata, own_pc: Option<u32>) -> (r: Option<Msu>)
    ensures
        unit_of(r) == violation_unit(inbound@, sccp@, own_pc),
{
    let asked = match sccp.head {
        SccpHead::Data { protocol_class: _, message_handling } => message_handling
            == SCCP_RETURN_ON_ERROR,
        SccpHead::Service { return_cause: _ } => false,
    };
    let short = match sccp.form {
        SccpForm::Short => true,
        _ => false,
    };
    if short || !asked {
        return None;
    }
    let optional: Vec<u8> = Vec::new();
    let back = Unitdata {
        form: sccp.form,
        head: SccpHead::Service { return_cause: HOP_COUNTER_VIOLATION },
        hop_counter: Some(INITIAL_HOP_COUNTER),
        called_party: sccp.calling_party.copy(),
        calling_party: sccp.called_party.copy(),
        data: copy_octets(&sccp.data),
        optional_part: optional,
    };
    proof {
        assert(back@.optional_part =~= Seq::empty());
        assert(back@ == violation_message(sccp@));
    }
    let opc: u32 = match own_pc {
        Some(pc) => pc,
        None => inbound.dpc,
    };
    match back.encode() {
        Ok(payload) => Some(
            Msu {
                opc,
                dpc: inbound.opc,
                si: inbound.si,
                ni: inbound.ni,
                mp: inbound.mp,
                sls: inbound.sls,
                payload,
            },
        ),
        Err(_) => None,
    }
}

// ── Frames ──────────────────────────────────────────────────────────────────

/// A frame to send: on which association, stream and payload protocol, and what.
#[derive(Clone, Debug, PartialEq, Eq)]
pub struct Frame {
    pub assoc: String,
    pub bytes: Vec<u8>,
    pub stream: u16,
    pub ppid: u32,
}

/// What a [`Frame`] is.
pub struct FrameModel {
    pub assoc: Seq<char>,
    pub bytes: Seq<u8>,
    pub stream: u16,
    pub ppid: u32,
}

impl View for Frame {
    type V = FrameModel;

    open spec fn view(&self) -> FrameModel {
        FrameModel {
            assoc: self.assoc@,
            bytes: self.bytes@,
            stream: self.stream,
            ppid: self.ppid,
        }
    }
}

/// What a list of frames is.
pub open spec fn frame_models(s: Seq<Frame>) -> Seq<FrameModel> {
    s.map_values(|f: Frame| f@)
}

/// The frame of a unit for an association of an adaptation, none if it cannot be
/// framed.
pub open spec fn framed(
    m: MsuModel,
    assoc: Seq<char>,
    adaptation: Adaptation,
    rc: Option<u32>,
) -> Option<FrameModel> {
    match adaptation {
        Adaptation::M3ua => Some(
            FrameModel {
                assoc,
                bytes: m3ua_data_octets(m, rc),
                stream: DATA_STREAM,
                ppid: PPID_M3UA,
            },
        ),
        Adaptation::M2pa => Some(
            FrameModel {
                assoc,
                bytes: m2pa_frame(m),
                stream: DATA_STREAM,
                ppid: PPID_M2PA,
            },
        ),
        Adaptation::Sua => match sua_frame_of(
            m,
            sccp_decoded(m.payload),
            match rc {
                Some(c) => c,
                None => 0,
            },
        ) {
            Ok(bytes) => Some(FrameModel { assoc, bytes, stream: DATA_STREAM, ppid: 4 }),
            Err(_) => None,
        },
    }
}

/// What an optional frame is.
pub open spec fn frame_of(o: Option<Frame>) -> Option<FrameModel> {
    match o {
        Some(f) => Some(f@),
        None => None,
    }
}

/// Frames a unit for an association of an adaptation.
pub fn frame_for(msu: &Msu, assoc: &str, adaptation: Adaptation, rc: Option<u32>) -> (r: Option<
    Frame,
>)
    ensures
        frame_of(r) == framed(msu@, assoc@, adaptation, rc),
{
    match adaptation {
        Adaptation::M3ua => Some(
            Frame {
                assoc: assoc.to_owned(),
                bytes: wrap_m3ua(msu, rc),
                stream: DATA_STREAM,
                ppid: PPID_M3UA,
            },
        ),
        Adaptation::M2pa => match wrap_m2pa(msu) {
            Ok(bytes) => Some(
                Frame { assoc: assoc.to_owned(), bytes, stream: DATA_STREAM, ppid: PPID_M2PA },
            ),
            Err(_) => None,
        },
        Adaptation::Sua => {
            let context: u32 = match rc {
                Some(c) => c,
                None => 0,
            };
            match wrap_sua(msu, context) {
                Ok(bytes) => Some(
                    Frame { assoc: assoc.to_owned(), bytes, stream: DATA_STREAM, ppid: 4 },
                ),
                Err(_) => None,
            }
        },
    }
}

/// The frames of a unit for the first `n` chosen associations.
pub open spec fn frames_for(m: MsuModel, cs: Seq<Choice>, n: int) -> Seq<FrameModel>
    decreases n,
{
    if n <= 0 {
        Seq::empty()
    } else {
        let before = frames_for(m, cs, n - 1);
        match framed(m, cs[n - 1].assoc, cs[n - 1].adaptation, cs[n - 1].routing_context) {
            Some(f) => before.push(f),
            None => before,
        }
    }
}

/// The frames that send a unit to a destination.
pub open spec fn sent_via(g: &Registry, via: Egress, m: MsuModel) -> Seq<FrameModel> {
    let cs = selection(g, via, m.sls);
    frames_for(m, cs, cs.len() as int)
}

/// The frames that send a unit to a destination: one for each association chosen
/// for it, framed for that association's adaptation. A unit that cannot be framed
/// for one is left out there.
pub fn send_via(registry: &Registry, via: &Destination, msu: &Msu) -> (r: Vec<Frame>)
    requires
        registry.wf(),
    ensures
        frame_models(r@) == sent_via(registry, via@, msu@),
{
    let selected = registry.select(via, msu.sls);
    let ghost cs = selection(registry, via@, msu.sls);
    let mut out: Vec<Frame> = Vec::new();
    let mut i: usize = 0;
    proof {
        assert(frame_models(out@) =~= frames_for(msu@, cs, 0));
    }
    while i < selected.len()
        invariant
            i <= selected@.len(),
            cs == choices(selected@),
            frame_models(out@) == frames_for(msu@, cs, i as int),
        decreases selected.len() - i,
    {
        let s = &selected[i];
        proof {
            assert(cs[i as int] == s@);
        }
        let ghost before = out@;
        match frame_for(msu, s.assoc.as_str(), s.adaptation, s.routing_context) {
            Some(f) => {
                out.push(f);
                proof {
                    assert(frame_models(out@) =~= frame_models(before).push(f@));
                }
            },
            None => {},
        }
        i += 1;
    }
    out
}

// ── Dispatch ────────────────────────────────────────────────────────────────

/// A message that terminates locally, with the association it arrived on.
#[derive(Clone, Debug)]
pub struct LocalDelivery {
    /// The unit.
    pub msu: Msu,
    /// The association to answer on.
    pub ingress_assoc: String,
}

/// Why a message went no further.
#[derive(Clone, Debug, PartialEq, Eq)]
pub enum DropCause {
    /// It carries our own point code as its origin.
    OwnOpc,
    /// ISUP screening blocked it.
    Screened(Screened),
    /// Its egress is where it came from.
    Reflected(Destination),
    /// Its hop counter ran out.
    HopExhausted,
    /// No route leads to its translated point code.
    NoRoute { dpc: u32 },
    /// It leads into another routing domain.
    CrossTenant { tenant: String },
    /// A script hook decides about it.
    Hook { hook: String },
    /// The router dropped it.
    Routing { reason: String },
}

/// What a [`DropCause`] says.
pub enum CauseModel {
    OwnOpc,
    Screened(Verdict),
    Reflected(Egress),
    HopExhausted,
    NoRoute { dpc: u32 },
    CrossTenant { tenant: Seq<char> },
    Hook { hook: Seq<char> },
    Routing { reason: Seq<char> },
}

impl View for DropCause {
    type V = CauseModel;

    open spec fn view(&self) -> CauseModel {
        match *self {
            DropCause::OwnOpc => CauseModel::OwnOpc,
            DropCause::Screened(v) => CauseModel::Screened(v@),
            DropCause::Reflected(d) => CauseModel::Reflected(d@),
            DropCause::HopExhausted => CauseModel::HopExhausted,
            DropCause::NoRoute { dpc } => CauseModel::NoRoute { dpc },
            DropCause::CrossTenant { tenant } => CauseModel::CrossTenant { tenant: tenant@ },
            DropCause::Hook { hook } => CauseModel::Hook { hook: hook@ },
            DropCause::Routing { reason } => CauseModel::Routing { reason: reason@ },
        }
    }
}

/// What became of an inbound message.
#[derive(Clone, Debug)]
pub enum Outcome {
    /// It goes on in these frames.
    Forwarded(Vec<Frame>),
    /// It terminates here.
    Delivered(LocalDelivery),
    /// It went no further; the frames return it to its originator, if it asked.
    Dropped(DropCause, Vec<Frame>),
}

/// What an [`Outcome`] says.
pub enum OutcomeModel {
    Forwarded(Seq<FrameModel>),
    Delivered(MsuModel, Seq<char>),
    Dropped(CauseModel, Seq<FrameModel>),
}

impl View for Outcome {
    type V = OutcomeModel;

    open spec fn view(&self) -> OutcomeModel {
        match *self {
            Outcome::Forwarded(f) => OutcomeModel::Forwarded(frame_models(f@)),
            Outcome::Delivered(d) => OutcomeModel::Delivered(d.msu@, d.ingress_assoc@),
            Outcome::Dropped(c, f) => OutcomeModel::Dropped(c@, frame_models(f@)),
        }
    }
}

/// A drop that sends nothing.
pub open spec fn dropped(c: CauseModel) -> OutcomeModel {
    OutcomeModel::Dropped(c, Seq::empty())
}

/// Sending it there would reflect the message to where it came from.
pub open spec fn reflects(source: Option<Egress>, via: Egress) -> bool {
    source == Some(via)
}

/// Whether a resolved egress would send a message back out where it came in.
pub fn is_reflection(inbound_src: &Option<Destination>, via: &Destination) -> (r: bool)
    ensures
        r == reflects(egress_of(*inbound_src), via@),
{
    match inbound_src {
        Some(d) => d.same_as(via),
        None => false,
    }
}

/// The verdict of a tenant's screening on a transiting message, if it is ISUP and
/// the tenant screens.
pub open spec fn screening(screen: Option<IsupScreen>, m: MsuModel) -> Option<Verdict> {
    match screen {
        Some(s) => if m.si == SI_ISUP {
            Some(s.verdict_on(isup_decoded(m.payload)))
        } else {
            None
        },
        None => None,
    }
}

/// The screening verdict blocks the message.
pub open spec fn blocks(v: Option<Verdict>) -> bool {
    v matches Some(x) && x.reason() is Some
}

/// What becomes of a message after a routing decision.
pub open spec fn acted(
    d: Decision,
    g: &Registry,
    m: MsuModel,
    part: Option<Result<MessageModel, Seq<char>>>,
    assoc: Seq<char>,
    own_pc: Option<u32>,
    screen: Option<IsupScreen>,
    rewrite: Option<Seq<char>>,
) -> OutcomeModel {
    let source = arrived_over(g, assoc);
    match d {
        Decision::Route { via } => if blocks(screening(screen, m)) {
            dropped(CauseModel::Screened(screening(screen, m)->Some_0))
        } else if reflects(source, via) {
            dropped(CauseModel::Reflected(via))
        } else {
            OutcomeModel::Forwarded(sent_via(g, via, m))
        },
        Decision::RouteTo { dpc, ssn, via: Some(via) } => if reflects(source, via) {
            dropped(CauseModel::Reflected(via))
        } else {
            match relayed(m.payload, part, rewrite) {
                Relay::Forward(payload) => OutcomeModel::Forwarded(
                    sent_via(g, via, MsuModel { dpc, payload, ..m }),
                ),
                Relay::Exhausted(msg) => OutcomeModel::Dropped(
                    CauseModel::HopExhausted,
                    match (source, violation_unit(m, msg, own_pc)) {
                        (Some(src), Some(back)) => sent_via(g, src, back),
                        _ => Seq::empty(),
                    },
                ),
            }
        },
        Decision::RouteTo { dpc, ssn, via: None } => dropped(CauseModel::NoRoute { dpc }),
        Decision::Local => OutcomeModel::Delivered(m, assoc),
        Decision::CrossTenant { tenant, dpc, ssn, conversion } => dropped(
            CauseModel::CrossTenant { tenant },
        ),
        Decision::Python { hook } => dropped(CauseModel::Hook { hook }),
        Decision::Drop { reason } => dropped(CauseModel::Routing { reason }),
    }
}

/// The loop counted after a routing decision, if any.
pub open spec fn loop_after(o: OutcomeModel) -> Option<LoopKind> {
    match o {
        OutcomeModel::Dropped(CauseModel::OwnOpc, f) => Some(LoopKind::OwnOpc),
        OutcomeModel::Dropped(CauseModel::Reflected(d), f) => Some(LoopKind::RouteReflect),
        OutcomeModel::Dropped(CauseModel::HopExhausted, f) => Some(LoopKind::HopCounter),
        _ => None,
    }
}

/// The screening counted after a routing decision, if any.
pub open spec fn screen_after(o: OutcomeModel) -> Option<ScreenReason> {
    match o {
        OutcomeModel::Dropped(CauseModel::Screened(v), f) => v.reason(),
        _ => None,
    }
}

/// Exactly the loop and the screening of this outcome were counted between two
/// readings of the metrics.
pub open spec fn outcome_counted(before: Metrics, after: Metrics, o: OutcomeModel) -> bool {
    &&& after.loops@ == bumped(
        before.loops@,
        match loop_after(o) {
            Some(k) => Some(loop_kind_slot(k)),
            None => None,
        },
    )
    &&& after.screened@ == bumped(
        before.screened@,
        match screen_after(o) {
            Some(k) => Some(screen_reason_slot(k)),
            None => None,
        },
    )
    &&& after == (Metrics { loops: after.loops, screened: after.screened, ..before })
}

fn no_frames() -> (r: Vec<Frame>)
    ensures
        frame_models(r@) == Seq::<FrameModel>::empty(),
{
    let v: Vec<Frame> = Vec::new();
    proof {
        assert(frame_models(v@) =~= Seq::<FrameModel>::empty());
    }
    v
}

/// Screens a transiting message: the verdict if it is ISUP and the tenant screens.
fn apply_isup_screen(screen: Option<&IsupScreen>, msu: &Msu) -> (r: Option<Screened>)
    ensures
        match r {
            Some(v) => screening(
                match screen {
                    Some(s) => Some(*s),
                    None => None,
                },
                msu@,
            ) == Some(v@),
            None => screening(
                match screen {
                    Some(s) => Some(*s),
                    None => None,
                },
                msu@,
            ) is None,
        },
{
    match screen {
        Some(s) => {
            if msu.si == SI_ISUP {
                Some(s.screen(msu.payload.as_slice()))
            } else {
                None
            }
        },
        None => None,
    }
}

/// Applies the hop counter and a rewrite to a translated message and sends it on, or
/// returns it.
fn relay(
    registry: &Registry,
    m: &mut Metrics,
    msu: &Msu,
    part: Option<Result<Unitdata, String>>,
    source: &Option<Destination>,
    own_pc: Option<u32>,
    dpc: u32,
    via: &Destination,
    rewrite: &Option<String>,
) -> (r: Outcome)
    requires
        registry.wf(),
        part matches Some(Ok(u)) ==> u.wf(),
    ensures
        r@ == match relayed(msu.payload@, part_outcome(part), text_of(*rewrite)) {
            Relay::Forward(payload) => OutcomeModel::Forwarded(
                sent_via(registry, via@, MsuModel { dpc, payload, ..msu@ }),
            ),
            Relay::Exhausted(msg) => OutcomeModel::Dropped(
                CauseModel::HopExhausted,
                match (egress_of(*source), violation_unit(msu@, msg, own_pc)) {
                    (Some(src), Some(back)) => sent_via(registry, src, back),
                    _ => Seq::empty(),
                },
            ),
        },
        outcome_counted(*old(m), *final(m), r@),
{
    match hop_step(&msu.payload, part, rewrite) {
        HopStep::Forward(payload) => {
            let out = Msu {
                opc: msu.opc,
                dpc,
                si: msu.si,
                ni: msu.ni,
                mp: msu.mp,
                sls: msu.sls,
                payload,
            };
            Outcome::Forwarded(send_via(registry, via, &out))
        },
        HopStep::Exhausted(msg) => {
            record_loop(m, LoopKind::HopCounter);
            let frames = match source {
                Some(src) => match hop_violation_return(msu, &msg, own_pc) {
                    Some(back) => send_via(registry, src, &back),
                    None => no_frames(),
                },
                None => no_frames(),
            };
            Outcome::Dropped(DropCause::HopExhausted, frames)
        },
    }
}

/// Acts on a routing decision: forwards the message, delivers it, or drops it.
pub fn act(
    decision: RouteDecision,
    registry: &Registry,
    m: &mut Metrics,
    msu: Msu,
    part: Option<Result<Unitdata, String>>,
    inbound_assoc: &str,
    own_pc: Option<u32>,
    screen: Option<&IsupScreen>,
    rewrite: &Option<String>,
) -> (r: Outcome)
    requires
        registry.wf(),
        part matches Some(Ok(u)) ==> u.wf(),
    ensures
        r@ == acted(
            decision@,
            registry,
            msu@,
            part_outcome(part),
            inbound_assoc@,
            own_pc,
            match screen {
                Some(s) => Some(*s),
                None => None,
            },
            text_of(*rewrite),
        ),
        outcome_counted(*old(m), *final(m), r@),
{
    let source = registry.inbound_destination(inbound_assoc);
    match decision {
        RouteDecision::Route { via } => {
            match apply_isup_screen(screen, &msu) {
                Some(verdict) => {
                    match verdict.reason() {
                        Some(reason) => {
                            record_isup_screened(m, reason);
                            return Outcome::Dropped(DropCause::Screened(verdict), no_frames());
                        },
                        None => {},
                    }
                },
                None => {},
            }
            if is_reflection(&source, &via) {
                record_loop(m, LoopKind::RouteReflect);
                return Outcome::Dropped(DropCause::Reflected(via), no_frames());
            }
            Outcome::Forwarded(send_via(registry, &via, &msu))
        },
        RouteDecision::RouteTo { dpc, ssn: _, via } => {
            match via {
                Some(via) => {
                    if is_reflection(&source, &via) {
                        record_loop(m, LoopKind::RouteReflect);
                        return Outcome::Dropped(DropCause::Reflected(via), no_frames());
                    }
                    relay(registry, m, &msu, part, &source, own_pc, dpc, &via, rewrite)
                },
                None => Outcome::Dropped(DropCause::NoRoute { dpc }, no_frames()),
            }
        },
        RouteDecision::Local => Outcome::Delivered(
            LocalDelivery { msu, ingress_assoc: inbound_assoc.to_owned() },
        ),
        RouteDecision::CrossTenant { tenant, dpc: _, ssn: _, conversion: _ } => Outcome::Dropped(
            DropCause::CrossTenant { tenant },
            no_frames(),
        ),
        RouteDecision::Python { hook } => Outcome::Dropped(DropCause::Hook { hook }, no_frames()),
        RouteDecision::Drop { reason } => Outcome::Dropped(
            DropCause::Routing { reason },
            no_frames(),
        ),
    }
}

/// The tenant has content rules.
pub open spec fn reads_views(ts: Runtimes, tenant: Seq<char>) -> bool {
    ts.contains_key(tenant) && (ts[tenant].content matches Some(c) && c.rule_list().len() > 0)
}

/// The view a message is routed with: that of an SCCP message, for a tenant with
/// content rules.
pub open spec fn view_for(
    ts: Runtimes,
    tenant: Seq<char>,
    part: Option<Result<MessageModel, Seq<char>>>,
) -> Option<ViewModel> {
    if reads_views(ts, tenant) {
        match part {
            Some(Ok(msg)) => map_view(msg, transaction_in_octets(msg.data)),
            _ => None,
        }
    } else {
        None
    }
}

/// A tenant's own point code, if it is known.
pub open spec fn own_code(ts: Runtimes, tenant: Seq<char>) -> Option<u32> {
    if ts.contains_key(tenant) {
        Some(ts[tenant].point_code)
    } else {
        None
    }
}

/// A tenant's screening, if it is known and screens.
pub open spec fn screen_of(ts: Runtimes, tenant: Seq<char>) -> Option<IsupScreen> {
    if ts.contains_key(tenant) {
        ts[tenant].isup
    } else {
        None
    }
}

/// What becomes of an inbound message, given its decoded payload and its view.
pub open spec fn dispatched(
    ts: Runtimes,
    g: &Registry,
    m: MsuModel,
    part: Option<Result<MessageModel, Seq<char>>>,
    view: Option<ViewModel>,
    assoc: Seq<char>,
) -> OutcomeModel {
    let tenant = g.tenant_id();
    if own_code(ts, tenant) == Some(m.opc) {
        dropped(CauseModel::OwnOpc)
    } else {
        acted(
            decision_in(ts, tenant, arrival_of(m, part, view)),
            g,
            m,
            part,
            assoc,
            own_code(ts, tenant),
            screen_of(ts, tenant),
            rewrite_in(ts, tenant, arrival_of(m, part, view)),
        )
    }
}

/// What a dispatch counts: the message by service indicator, then what routing
/// counts, then the loop or screening that ended it.
pub open spec fn dispatch_counted(
    before: Metrics,
    after: Metrics,
    ts: Runtimes,
    tenant: Seq<char>,
    m: MsuModel,
    arrival: Arrival,
    o: OutcomeModel,
) -> bool {
    let routed_in = ts.contains_key(tenant) && own_code(ts, tenant) != Some(m.opc);
    let rt = &ts[tenant];
    &&& after.msu_rx@ == before.msu_rx@.update(
        m.si as int % 16,
        next(before.msu_rx@[m.si as int % 16]),
    )
    &&& after.loops@ == bumped(
        before.loops@,
        match loop_after(o) {
            Some(k) => Some(loop_kind_slot(k)),
            None => None,
        },
    )
    &&& after.screened@ == bumped(
        before.screened@,
        match screen_after(o) {
            Some(k) => Some(screen_reason_slot(k)),
            None => None,
        },
    )
    &&& counted(
        Metrics {
            msu_rx: after.msu_rx,
            loops: after.loops,
            screened: after.screened,
            ..before
        },
        after,
        if routed_in {
            hit_counted(rt, arrival)
        } else {
            None
        },
        if routed_in {
            kind_counted(rt, arrival)
        } else {
            None
        },
        if routed_in {
            error_counted(rt, arrival)
        } else {
            None
        },
    )
}

/// What a dispatch changes in the tables: what routing changes, and nothing for a
/// message that was dropped before it was routed.
pub open spec fn dispatch_moved(
    before: Router,
    after: Router,
    tenant: Seq<char>,
    m: MsuModel,
    arrival: Arrival,
) -> bool {
    if own_code(before.runtimes(), tenant) == Some(m.opc) {
        after == before
    } else {
        groups_moved(before, after, tenant, arrival)
    }
}

/// Routes an inbound message whose payload and view are decoded, and acts on the
/// decision. A message that carries our own point code as its origin is one we
/// sent, come back: it is dropped before it can loop.
pub fn dispatch_decoded(
    router: &mut Router,
    registry: &Registry,
    m: &mut Metrics,
    msu: Msu,
    part: Option<Result<Unitdata, String>>,
    view: Option<MapView>,
    inbound_assoc: &str,
) -> (r: Outcome)
    requires
        old(router).wf(),
        registry.wf(),
        old(m).wf(),
        part matches Some(Ok(u)) ==> u.wf(),
    ensures
        final(router).wf(),
        final(m).wf(),
        r@ == dispatched(
            old(router).runtimes(),
            registry,
            msu@,
            part_outcome(part),
            view_of(view),
            inbound_assoc@,
        ),
        dispatch_counted(
            *old(m),
            *final(m),
            old(router).runtimes(),
            registry.tenant_id(),
            msu@,
            arrival_of(msu@, part_outcome(part), view_of(view)),
            r@,
        ),
        dispatch_moved(
            *old(router),
            *final(router),
            registry.tenant_id(),
            msu@,
            arrival_of(msu@, part_outcome(part), view_of(view)),
        ),
{
    crate::metrics::msu(m, Dir::Rx, msu.si);
    let ghost received = *m;
    let tenant = registry.tenant();
    let own_pc = router.node_point_code(tenant);
    match own_pc {
        Some(pc) => {
            if msu.opc == pc {
                record_loop(m, LoopKind::OwnOpc);
                return Outcome::Dropped(DropCause::OwnOpc, no_frames());
            }
        },
        None => {},
    }
    let inbound = inbound_of(&msu, &part, view);
    let ghost ts = router.runtimes();
    let rewrite = router.rewrite_in(tenant, &inbound);
    let decision = router.route_in(m, tenant, &inbound);
    let ghost decided = *m;
    let screen = router.isup_screen(tenant);
    proof {
        assert(ts.dom().contains(tenant@) == router.runtimes().dom().contains(tenant@));
    }
    act(decision, registry, m, msu, part, inbound_assoc, own_pc, screen, &rewrite)
}

/// Routes one inbound message and acts on the decision. The payload of an SCCP
/// message is decoded, and its view too for a tenant with content rules.
pub fn dispatch(
    router: &mut Router,
    registry: &Registry,
    m: &mut Metrics,
    msu: Msu,
    inbound_assoc: &str,
) -> (r: Outcome)
    requires
        old(router).wf(),
        registry.wf(),
        old(m).wf(),
    ensures
        final(router).wf(),
        final(m).wf(),
        r@ == dispatched(
            old(router).runtimes(),
            registry,
            msu@,
            sccp_part(msu@),
            view_for(old(router).runtimes(), registry.tenant_id(), sccp_part(msu@)),
            inbound_assoc@,
        ),
        dispatch_counted(
            *old(m),
            *final(m),
            old(router).runtimes(),
            registry.tenant_id(),
            msu@,
            arrival_of(
                msu@,
                sccp_part(msu@),
                view_for(old(router).runtimes(), registry.tenant_id(), sccp_part(msu@)),
            ),
            r@,
        ),
        dispatch_moved(
            *old(router),
            *final(router),
            registry.tenant_id(),
            msu@,
            arrival_of(
                msu@,
                sccp_part(msu@),
                view_for(old(router).runtimes(), registry.tenant_id(), sccp_part(msu@)),
            ),
        ),
{
    let part = decode_part(&msu);
    let view = if router.wants_view(registry.tenant()) {
        match &part {
            Some(Ok(u)) => decode_map_view(u),
            _ => None,
        }
    } else {
        None
    };
    dispatch_decoded(router, registry, m, msu, part, view, inbound_assoc)
}

/// A message that carries our own point code as its origin is dropped, whatever
/// else it holds, and nothing is sent.
pub proof fn law_own_origin_is_dropped(
    ts: Runtimes,
    g: &Registry,
    m: MsuModel,
    part: Option<Result<MessageModel, Seq<char>>>,
    view: Option<ViewModel>,
    assoc: Seq<char>,
)
    requires
        own_code(ts, g.tenant_id()) == Some(m.opc),
    ensures
        dispatched(ts, g, m, part, view, assoc) == dropped(CauseModel::OwnOpc),
{
}

/// A message is never forwarded to the destination that it arrived over.
pub proof fn law_never_reflected(
    d: Decision,
    g: &Registry,
    m: MsuModel,
    part: Option<Result<MessageModel, Seq<char>>>,
    assoc: Seq<char>,
    own_pc: Option<u32>,
    screen: Option<IsupScreen>,
    rewrite: Option<Seq<char>>,
)
    requires
        d matches Decision::Route { via } ==> arrived_over(g, assoc) == Some(via),
        d matches Decision::RouteTo { dpc, ssn, via } ==> arrived_over(g, assoc) == via,
    ensures
        !(acted(d, g, m, part, assoc, own_pc, screen, rewrite) is Forwarded),
{
}

/// A message for a point code that is not ours is forwarded as it is, whatever its
/// service indicator: its payload and label are not touched.
pub proof fn law_transit_is_untouched(
    via: Egress,
    g: &Registry,
    m: MsuModel,
    part: Option<Result<MessageModel, Seq<char>>>,
    assoc: Seq<char>,
    own_pc: Option<u32>,
    screen: Option<IsupScreen>,
    rewrite: Option<Seq<char>>,
)
    requires
        arrived_over(g, assoc) != Some(via),
        !blocks(screening(screen, m)),
    ensures
        acted(Decision::Route { via }, g, m, part, assoc, own_pc, screen, rewrite)
            == OutcomeModel::Forwarded(sent_via(g, via, m)),
{
}

/// Only ISUP is screened: a message of any other service indicator transits
/// whatever the screening says.
pub proof fn law_only_isup_is_screened(screen: Option<IsupScreen>, m: MsuModel)
    requires
        m.si != SI_ISUP,
    ensures
        !blocks(screening(screen, m)),
{
}

/// A return is never returned: an exhausted service message, or one that did not
/// ask, sends nothing back.
pub proof fn law_returns_are_not_returned(m: MsuModel, msg: MessageModel, own_pc: Option<u32>)
    requires
        msg.head is Service || (msg.head matches SccpHead::Data {
            protocol_class,
            message_handling,
        } && message_handling != SCCP_RETURN_ON_ERROR),
    ensures
        violation_unit(m, msg, own_pc) is None,
{
}

/// A return goes back to whoever sent the message, addressed to its calling party.
pub proof fn law_return_goes_back(m: MsuModel, msg: MessageModel, own_pc: Option<u32>)
    ensures
        violation_unit(m, msg, own_pc) matches Some(back) ==> back.dpc == m.opc && back.sls == m.sls
            && back.ni == m.ni && back.si == m.si,
        violation_message(msg).called_party == msg.calling_party,
        violation_message(msg).calling_party == msg.called_party,
        violation_message(msg).data == msg.data,
{
}

/// A hop counter of 1 or 0 runs out, so a message passes at most as many
/// translations as its counter says.
pub proof fn law_hop_counter_runs_out(
    payload: Seq<u8>,
    msg: MessageModel,
    rewrite: Option<Seq<char>>,
)
    requires
        msg.hop_counter matches Some(hop) && hop <= 1,
    ensures
        relayed(payload, Some(Ok(msg)), rewrite) == Relay::Exhausted(msg),
{
}

/// A content rule's rewrite replaces the digits of the called title and nothing
/// else of the message but its hop counter.
pub proof fn law_rewrite_replaces_called_digits(msg: MessageModel, digits: Seq<char>)
    requires
        msg.called_party.global_title.digits() is Some,
    ensures
        onward(msg, Some(digits)).called_party.global_title.digits() == Some(digits),
        onward(msg, Some(digits)).readdressed(msg.called_party.global_title.digits()->Some_0)
            == onward(msg, None),
{
}

/// Without a rewrite and a hop counter a message goes on octet for octet.
pub proof fn law_relay_keeps_short_messages(payload: Seq<u8>, msg: MessageModel)
    requires
        msg.hop_counter is None,
    ensures
        relayed(payload, Some(Ok(msg)), None) == Relay::Forward(payload),
{
}

} // verus!
