//! The MAP, CAP and INAP codecs behind the builders.
use crate::sccp::message::octets_outcome;
use crate::text::{are_digits, are_signals, packed};
use crate::transaction::octets;
use ::gsm_map::operations::auth::AuthenticationSetList as WireAuthSet;
use ::gsm_map::SmRpDa as WireDa;
use ::gsm_map::SmRpOa as WireOa;
use ::inap::types::BcsmEvent as WireArmed;
use ::inap::types::EventTypeBcsm as WireEvent;
use ::inap::types::LegId as WireLeg;
use vstd::prelude::*;

verus! {

/// A detection point of the basic call state model.
#[derive(Clone, Copy, PartialEq, Eq, Structural, Debug)]
pub enum EventType {
    CollectedInfo,
    AnalysedInformation,
    RouteSelectFailure,
    OCalledPartyBusy,
    ONoAnswer,
    OAnswer,
    ODisconnect,
    OAbandon,
    TermAttemptAuthorized,
    TBusy,
    TNoAnswer,
    TAnswer,
    TDisconnect,
    TAbandon,
}

/// How a detection point is monitored.
#[derive(Clone, Copy, PartialEq, Eq, Structural, Debug)]
pub enum MonitorMode {
    Interrupted,
    NotifyAndContinue,
    Transparent,
}

/// A UMTS authentication vector.
#[derive(Clone, Debug, PartialEq, Eq)]
pub struct Quintuplet {
    pub rand: Vec<u8>,
    pub xres: Vec<u8>,
    pub ck: Vec<u8>,
    pub ik: Vec<u8>,
    pub autn: Vec<u8>,
}

/// A GSM authentication vector.
#[derive(Clone, Debug, PartialEq, Eq)]
pub struct Triplet {
    pub rand: Vec<u8>,
    pub sres: Vec<u8>,
    pub kc: Vec<u8>,
}

/// The vectors of an authentication response.
#[derive(Clone, Debug, PartialEq, Eq)]
pub enum AuthSet {
    Empty,
    Quintuplets(Vec<Quintuplet>),
    Triplets(Vec<Triplet>),
}

/// What a [`Quintuplet`] holds.
pub struct QuintupletModel {
    pub rand: Seq<u8>,
    pub xres: Seq<u8>,
    pub ck: Seq<u8>,
    pub ik: Seq<u8>,
    pub autn: Seq<u8>,
}

/// What a [`Triplet`] holds.
pub struct TripletModel {
    pub rand: Seq<u8>,
    pub sres: Seq<u8>,
    pub kc: Seq<u8>,
}

/// What an [`AuthSet`] holds.
pub enum AuthModel {
    Empty,
    Quintuplets(Seq<QuintupletModel>),
    Triplets(Seq<TripletModel>),
}

impl View for Quintuplet {
    type V = QuintupletModel;

    open spec fn view(&self) -> QuintupletModel {
        QuintupletModel {
            rand: self.rand@,
            xres: self.xres@,
            ck: self.ck@,
            ik: self.ik@,
            autn: self.autn@,
        }
    }
}

impl View for Triplet {
    type V = TripletModel;

    open spec fn view(&self) -> TripletModel {
        TripletModel { rand: self.rand@, sres: self.sres@, kc: self.kc@ }
    }
}

impl View for AuthSet {
    type V = AuthModel;

    open spec fn view(&self) -> AuthModel {
        match *self {
            AuthSet::Empty => AuthModel::Empty,
            AuthSet::Quintuplets(q) => AuthModel::Quintuplets(
                q@.map_values(|v: Quintuplet| v@),
            ),
            AuthSet::Triplets(t) => AuthModel::Triplets(t@.map_values(|v: Triplet| v@)),
        }
    }
}

/// The destination of a short message.
#[derive(Clone, Debug, PartialEq, Eq)]
pub enum SmDestination {
    Imsi(Vec<u8>),
    Lmsi(Vec<u8>),
    ServiceCentre(Vec<u8>),
    Absent,
}

/// What an [`SmDestination`] holds.
pub enum SmDestinationModel {
    Imsi(Seq<u8>),
    Lmsi(Seq<u8>),
    ServiceCentre(Seq<u8>),
    Absent,
}

impl View for SmDestination {
    type V = SmDestinationModel;

    open spec fn view(&self) -> SmDestinationModel {
        match *self {
            SmDestination::Imsi(b) => SmDestinationModel::Imsi(b@),
            SmDestination::Lmsi(b) => SmDestinationModel::Lmsi(b@),
            SmDestination::ServiceCentre(b) => SmDestinationModel::ServiceCentre(b@),
            SmDestination::Absent => SmDestinationModel::Absent,
        }
    }
}

/// The origin of a short message.
#[derive(Clone, Debug, PartialEq, Eq)]
pub enum SmOrigin {
    Msisdn(Vec<u8>),
    ServiceCentre(Vec<u8>),
    Absent,
}

/// What an [`SmOrigin`] holds.
pub enum SmOriginModel {
    Msisdn(Seq<u8>),
    ServiceCentre(Seq<u8>),
    Absent,
}

impl View for SmOrigin {
    type V = SmOriginModel;

    open spec fn view(&self) -> SmOriginModel {
        match *self {
            SmOrigin::Msisdn(b) => SmOriginModel::Msisdn(b@),
            SmOrigin::ServiceCentre(b) => SmOriginModel::ServiceCentre(b@),
            SmOrigin::Absent => SmOriginModel::Absent,
        }
    }
}

/// A leg of a call, named by the side that it is on.
#[derive(Clone, Debug, PartialEq, Eq)]
pub enum Leg {
    Sending(Vec<u8>),
    Receiving(Vec<u8>),
}

/// What a [`Leg`] holds.
pub enum LegModel {
    Sending(Seq<u8>),
    Receiving(Seq<u8>),
}

impl View for Leg {
    type V = LegModel;

    open spec fn view(&self) -> LegModel {
        match *self {
            Leg::Sending(b) => LegModel::Sending(b@),
            Leg::Receiving(b) => LegModel::Receiving(b@),
        }
    }
}

/// What an optional leg holds.
pub open spec fn maybe_leg(o: Option<Leg>) -> Option<LegModel> {
    match o {
        Some(l) => Some(l@),
        None => None,
    }
}

/// What a list of octet strings holds.
pub open spec fn octet_lists(s: Seq<Vec<u8>>) -> Seq<Seq<u8>> {
    s.map_values(|v: Vec<u8>| v@)
}

/// `gsm_map::operations::auth::AuthenticationSetList`.
#[verifier::external_type_specification]
#[verifier::external_body]
pub struct ExWireAuthSet(::gsm_map::operations::auth::AuthenticationSetList);

/// `inap::types::BcsmEvent`.
#[verifier::external_type_specification]
#[verifier::external_body]
pub struct ExWireArmed(::inap::types::BcsmEvent);

/// `inap::types::LegId`.
#[verifier::external_type_specification]
#[verifier::external_body]
pub struct ExWireLeg(::inap::types::LegId);

/// `inap::types::EventTypeBcsm`.
#[verifier::external_type_specification]
#[verifier::external_body]
pub struct ExWireEvent(::inap::types::EventTypeBcsm);

/// The text with which `gsm_map::address::international_e164` refuses digits.
pub uninterp spec fn e164_refusal(digits: Seq<char>) -> Seq<char>;

/// An international E.164 number as an address string: the octet 0x91, then the
/// packed signals with 0xF as the filler. Anything but address signals is refused.
pub open spec fn e164_octets(digits: Seq<char>) -> Result<Seq<u8>, Seq<char>> {
    if are_signals(digits) {
        Ok(seq![0x91u8] + packed(digits, 15))
    } else {
        Err(e164_refusal(digits))
    }
}

/// Calls `gsm_map::address::international_e164`. It packs the digits behind one octet,
/// and refuses exactly what is not made of address signals; the text of the refusal is
/// the named one.
#[verifier::external_body]
pub(crate) fn encode_e164(digits: &str) -> (r: Result<Vec<u8>, String>)
    ensures
        octets_outcome(r) == e164_octets(digits@),
        r matches Err(e) ==> e@ == e164_refusal(digits@),
{
    ::gsm_map::address::international_e164(digits).map_err(|e| e.to_string())
}

/// The text with which `gsm_map::address::imsi` refuses digits.
pub uninterp spec fn imsi_refusal(digits: Seq<char>) -> Seq<char>;

/// An IMSI as a TBCD string: the packed signals with 0xF as the filler. Anything but
/// address signals is refused.
pub open spec fn imsi_octets(digits: Seq<char>) -> Result<Seq<u8>, Seq<char>> {
    if are_signals(digits) {
        Ok(packed(digits, 15))
    } else {
        Err(imsi_refusal(digits))
    }
}

/// Calls `gsm_map::address::imsi`. It packs the digits, and refuses exactly what is not
/// made of address signals; the text of the refusal is the named one.
#[verifier::external_body]
pub(crate) fn encode_imsi(digits: &str) -> (r: Result<Vec<u8>, String>)
    ensures
        octets_outcome(r) == imsi_octets(digits@),
        r matches Err(e) ==> e@ == imsi_refusal(digits@),
{
    ::gsm_map::address::imsi(digits).map_err(|e| e.to_string())
}

/// The text with which `inap::address::international_e164` refuses digits.
pub uninterp spec fn called_party_refusal(digits: Seq<char>) -> Seq<char>;

/// An international E.164 number as a called party number: the nature of address with
/// the parity of the digits above it, the numbering plan, then the packed digits with 0
/// as the filler. Anything but decimal digits is refused.
pub open spec fn called_party_octets(digits: Seq<char>) -> Result<Seq<u8>, Seq<char>> {
    if are_digits(digits) {
        Ok(
            seq![
                if digits.len() % 2 == 1 {
                    0x84u8
                } else {
                    0x04u8
                },
                0x10u8,
            ] + packed(digits, 0),
        )
    } else {
        Err(called_party_refusal(digits))
    }
}

/// Calls `inap::address::international_e164`. It packs the digits behind two octets, and
/// refuses exactly what is not made of decimal digits; the text of the refusal is the
/// named one.
#[verifier::external_body]
pub(crate) fn encode_called_party(digits: &str) -> (r: Result<Vec<u8>, String>)
    ensures
        octets_outcome(r) == called_party_octets(digits@),
        r matches Err(e) ==> e@ == called_party_refusal(digits@),
{
    ::inap::address::international_e164(digits).map_err(|e| e.to_string())
}

/// The octets that `rasn::ber::encode` writes for a `gsm_map` `RoutingInfoForSmRes`, or
/// the text of its error.
pub uninterp spec fn sri_sm_res_octets(imsi: Seq<u8>, node: Seq<u8>, lmsi: Option<Seq<u8>>) -> Result<Seq<u8>, Seq<char>>;

/// Calls `rasn::ber::encode` on a `gsm_map::operations::sri_sm::RoutingInfoForSmRes`
/// with these fields. The outcome is the named one.
#[verifier::external_body]
pub(crate) fn encode_sri_sm_res(imsi: Vec<u8>, node: Vec<u8>, lmsi: Option<Vec<u8>>) -> (r: Result<Vec<u8>, String>)
    ensures
        octets_outcome(r) == sri_sm_res_octets(imsi@, node@, octets(lmsi)),
{
    ::rasn::ber::encode(&::gsm_map::operations::sri_sm::RoutingInfoForSmRes { imsi: imsi.into(), location_info_with_lmsi: ::gsm_map::types::LocationInfoWithLmsi { network_node_number: node.into(), lmsi: lmsi.map(Into::into), gprs_node_indicator: None, additional_number: None } }).map_err(|e| e.to_string())
}

/// The octets that `rasn::ber::encode` writes for a `gsm_map` `UpdateLocationRes`, or
/// the text of its error.
pub uninterp spec fn update_location_res_octets(hlr_number: Seq<u8>) -> Result<Seq<u8>, Seq<char>>;

/// Calls `rasn::ber::encode` on a `gsm_map::operations::location::UpdateLocationRes`
/// with these fields. The outcome is the named one.
#[verifier::external_body]
pub(crate) fn encode_update_location_res(hlr_number: Vec<u8>) -> (r: Result<Vec<u8>, String>)
    ensures
        octets_outcome(r) == update_location_res_octets(hlr_number@),
{
    ::rasn::ber::encode(&::gsm_map::operations::location::UpdateLocationRes { hlr_number: hlr_number.into() }).map_err(|e| e.to_string())
}

/// The octets that `rasn::ber::encode` writes for a `gsm_map` `PurgeMsRes`, or the text
/// of its error.
pub uninterp spec fn purge_ms_res_octets(freeze_tmsi: bool, freeze_p_tmsi: bool) -> Result<Seq<u8>, Seq<char>>;

/// Calls `rasn::ber::encode` on a `gsm_map::operations::location::PurgeMsRes` with
/// these fields. The outcome is the named one.
#[verifier::external_body]
pub(crate) fn encode_purge_ms_res(freeze_tmsi: bool, freeze_p_tmsi: bool) -> (r: Result<Vec<u8>, String>)
    ensures
        octets_outcome(r) == purge_ms_res_octets(freeze_tmsi, freeze_p_tmsi),
{
    ::rasn::ber::encode(&::gsm_map::operations::location::PurgeMsRes { freeze_tmsi: freeze_tmsi.then_some(()), freeze_p_tmsi: freeze_p_tmsi.then_some(()) }).map_err(|e| e.to_string())
}

/// The octets that `rasn::ber::encode` writes for a `gsm_map`
/// `InsertSubscriberDataArg`, or the text of its error.
pub uninterp spec fn insert_subscriber_data_octets(imsi: Option<Seq<u8>>, msisdn: Option<Seq<u8>>) -> Result<Seq<u8>, Seq<char>>;

/// Calls `rasn::ber::encode` on a
/// `gsm_map::operations::subscriber_data::InsertSubscriberDataArg` with these fields.
/// The outcome is the named one.
#[verifier::external_body]
pub(crate) fn encode_insert_subscriber_data(imsi: Option<Vec<u8>>, msisdn: Option<Vec<u8>>) -> (r: Result<Vec<u8>, String>)
    ensures
        octets_outcome(r) == insert_subscriber_data_octets(octets(imsi), octets(msisdn)),
{
    ::rasn::ber::encode(&::gsm_map::operations::subscriber_data::InsertSubscriberDataArg { imsi: imsi.map(Into::into), msisdn: msisdn.map(Into::into), category: None, subscriber_status: None, bearer_service_list: None, teleservice_list: None, odb_data: None, roaming_restricted_in_sgsn_due_to_unsupported_feature: None, network_access_mode: None }).map_err(|e| e.to_string())
}

/// The `gsm_map` `SmRpDa` of a destination.
#[verifier::external_body]
fn da_out(d: SmDestination) -> WireDa {
    match d {
        SmDestination::Imsi(b) => WireDa::Imsi(b.into()),
        SmDestination::Lmsi(b) => WireDa::Lmsi(b.into()),
        SmDestination::ServiceCentre(b) => WireDa::ServiceCentreAddressDa(b.into()),
        SmDestination::Absent => WireDa::NoSmRpDa(()),
    }
}

/// The `gsm_map` `SmRpOa` of an origin.
#[verifier::external_body]
fn oa_out(o: SmOrigin) -> WireOa {
    match o {
        SmOrigin::Msisdn(b) => WireOa::MsIsdn(b.into()),
        SmOrigin::ServiceCentre(b) => WireOa::ServiceCentreAddressOa(b.into()),
        SmOrigin::Absent => WireOa::NoSmRpOa(()),
    }
}

/// The octets that `rasn::ber::encode` writes for a `gsm_map` `MoForwardSmArg`, or the
/// text of its error.
pub uninterp spec fn mo_forward_sm_octets(da: SmDestinationModel, oa: SmOriginModel, tpdu: Seq<u8>, imsi: Option<Seq<u8>>) -> Result<Seq<u8>, Seq<char>>;

/// Calls `rasn::ber::encode` on a `gsm_map::operations::mo_forward_sm::MoForwardSmArg`
/// with these fields. The outcome is the named one.
#[verifier::external_body]
pub(crate) fn encode_mo_forward_sm(da: SmDestination, oa: SmOrigin, tpdu: Vec<u8>, imsi: Option<Vec<u8>>) -> (r: Result<Vec<u8>, String>)
    ensures
        octets_outcome(r) == mo_forward_sm_octets(da@, oa@, tpdu@, octets(imsi)),
{
    ::rasn::ber::encode(&::gsm_map::operations::mo_forward_sm::MoForwardSmArg { sm_rp_da: da_out(da), sm_rp_oa: oa_out(oa), sm_rp_ui: tpdu.into(), imsi: imsi.map(Into::into) }).map_err(|e| e.to_string())
}

/// The octets that `rasn::ber::encode` writes for a `gsm_map` `MtForwardSmArg`, or the
/// text of its error.
pub uninterp spec fn mt_forward_sm_octets(da: SmDestinationModel, oa: SmOriginModel, tpdu: Seq<u8>, more: bool) -> Result<Seq<u8>, Seq<char>>;

/// Calls `rasn::ber::encode` on a `gsm_map::operations::mt_forward_sm::MtForwardSmArg`
/// with these fields. The outcome is the named one.
#[verifier::external_body]
pub(crate) fn encode_mt_forward_sm(da: SmDestination, oa: SmOrigin, tpdu: Vec<u8>, more: bool) -> (r: Result<Vec<u8>, String>)
    ensures
        octets_outcome(r) == mt_forward_sm_octets(da@, oa@, tpdu@, more),
{
    ::rasn::ber::encode(&::gsm_map::operations::mt_forward_sm::MtForwardSmArg { sm_rp_da: da_out(da), sm_rp_oa: oa_out(oa), sm_rp_ui: tpdu.into(), more_messages_to_send: more.then_some(()) }).map_err(|e| e.to_string())
}

/// The vectors of a `gsm_map` `AuthenticationSetList`.
#[verifier::external_body]
fn set_out(set: AuthSet) -> Option<WireAuthSet> {
    match set {
        AuthSet::Empty => None,
        AuthSet::Quintuplets(q) => Some(WireAuthSet::QuintupletList(q.into_iter().map(|v| ::gsm_map::operations::auth::AuthenticationQuintuplet { rand: v.rand.into(), xres: v.xres.into(), ck: v.ck.into(), ik: v.ik.into(), autn: v.autn.into() }).collect())),
        AuthSet::Triplets(t) => Some(WireAuthSet::TripletList(t.into_iter().map(|v| ::gsm_map::operations::auth::AuthenticationTriplet { rand: v.rand.into(), sres: v.sres.into(), kc: v.kc.into() }).collect())),
    }
}

/// The octets that `rasn::ber::encode` writes for a `gsm_map`
/// `SendAuthenticationInfoRes`, or the text of its error.
pub uninterp spec fn auth_info_res_octets(set: AuthModel) -> Result<Seq<u8>, Seq<char>>;

/// Calls `rasn::ber::encode` on a
/// `gsm_map::operations::auth::SendAuthenticationInfoRes` with these vectors. The
/// outcome is the named one.
#[verifier::external_body]
pub(crate) fn encode_auth_info_res(set: AuthSet) -> (r: Result<Vec<u8>, String>)
    ensures
        octets_outcome(r) == auth_info_res_octets(set@),
{
    ::rasn::ber::encode(&::gsm_map::operations::auth::SendAuthenticationInfoRes { authentication_set_list: set_out(set) }).map_err(|e| e.to_string())
}

/// The octets that `gsm_cap::encode` writes for a `gsm_cap` `ConnectArg`, or the text
/// of its error.
pub uninterp spec fn cap_connect_octets(addresses: Seq<Seq<u8>>) -> Result<Seq<u8>, Seq<char>>;

/// Calls `gsm_cap::encode` on a `gsm_cap::operations::ConnectArg` with these fields.
/// The outcome is the named one.
#[verifier::external_body]
pub(crate) fn encode_cap_connect(addresses: Vec<Vec<u8>>) -> (r: Result<Vec<u8>, String>)
    ensures
        octets_outcome(r) == cap_connect_octets(octet_lists(addresses@)),
{
    ::gsm_cap::encode(&::gsm_cap::operations::ConnectArg { destination_routing_address: addresses.into_iter().map(Into::into).collect(), original_called_party_id: None, calling_partys_category: None, redirecting_party_id: None, generic_numbers: None }).map_err(|e| e.to_string())
}

/// The octets that `gsm_cap::encode` writes for a `gsm_cap` `ReleaseCallArg`, or the
/// text of its error.
pub uninterp spec fn cap_release_octets(cause: Seq<u8>) -> Result<Seq<u8>, Seq<char>>;

/// Calls `gsm_cap::encode` on a `gsm_cap::operations::ReleaseCallArg` with these
/// fields. The outcome is the named one.
#[verifier::external_body]
pub(crate) fn encode_cap_release(cause: Vec<u8>) -> (r: Result<Vec<u8>, String>)
    ensures
        octets_outcome(r) == cap_release_octets(cause@),
{
    ::gsm_cap::encode(&::gsm_cap::operations::ReleaseCallArg(cause.into())).map_err(|e| e.to_string())
}

/// The octets that `gsm_cap::encode` writes for a `gsm_cap` `ApplyChargingArg`, or the
/// text of its error.
pub uninterp spec fn cap_charging_octets(characteristics: Seq<u8>, party: Option<Seq<u8>>) -> Result<Seq<u8>, Seq<char>>;

/// Calls `gsm_cap::encode` on a `gsm_cap::operations::ApplyChargingArg` with these
/// fields. The outcome is the named one.
#[verifier::external_body]
pub(crate) fn encode_cap_charging(characteristics: Vec<u8>, party: Option<Vec<u8>>) -> (r: Result<Vec<u8>, String>)
    ensures
        octets_outcome(r) == cap_charging_octets(characteristics@, octets(party)),
{
    ::gsm_cap::encode(&::gsm_cap::operations::ApplyChargingArg { ach_billing_charging_characteristics: characteristics.into(), party_to_charge: party.map(Into::into) }).map_err(|e| e.to_string())
}

/// The `inap` `EventTypeBcsm` of a detection point.
#[verifier::external_body]
fn event_out(e: EventType) -> WireEvent {
    match e {
        EventType::CollectedInfo => WireEvent::CollectedInfo, EventType::AnalysedInformation => WireEvent::AnalysedInformation,
        EventType::RouteSelectFailure => WireEvent::RouteSelectFailure, EventType::OCalledPartyBusy => WireEvent::OCalledPartyBusy,
        EventType::ONoAnswer => WireEvent::ONoAnswer, EventType::OAnswer => WireEvent::OAnswer,
        EventType::ODisconnect => WireEvent::ODisconnect, EventType::OAbandon => WireEvent::OAbandon,
        EventType::TermAttemptAuthorized => WireEvent::TermAttemptAuthorized, EventType::TBusy => WireEvent::TBusy,
        EventType::TNoAnswer => WireEvent::TNoAnswer, EventType::TAnswer => WireEvent::TAnswer,
        EventType::TDisconnect => WireEvent::TDisconnect, EventType::TAbandon => WireEvent::TAbandon,
    }
}

/// The `inap` `BcsmEvent` of a detection point and its monitor mode.
#[verifier::external_body]
fn armed_out(p: (EventType, MonitorMode)) -> WireArmed {
    let monitor_mode = match p.1 {
        MonitorMode::Interrupted => ::inap::types::MonitorMode::Interrupted,
        MonitorMode::NotifyAndContinue => ::inap::types::MonitorMode::NotifyAndContinue,
        MonitorMode::Transparent => ::inap::types::MonitorMode::Transparent,
    };
    WireArmed { event_type_bcsm: event_out(p.0), monitor_mode, leg_id: None }
}

/// The octets that `gsm_cap::encode` writes for a `gsm_cap`
/// `RequestReportBcsmEventArg`, or the text of its error.
pub uninterp spec fn cap_report_octets(events: Seq<(EventType, MonitorMode)>) -> Result<Seq<u8>, Seq<char>>;

/// Calls `gsm_cap::encode` on a `gsm_cap::operations::RequestReportBcsmEventArg` with
/// these fields. The outcome is the named one.
#[verifier::external_body]
pub(crate) fn encode_cap_report(events: Vec<(EventType, MonitorMode)>) -> (r: Result<Vec<u8>, String>)
    ensures
        octets_outcome(r) == cap_report_octets(events@),
{
    ::gsm_cap::encode(&::gsm_cap::operations::RequestReportBcsmEventArg { bcsm_events: events.into_iter().map(armed_out).collect() }).map_err(|e| e.to_string())
}

/// The octets that `inap::encode` writes for an `inap` `RequestReportBcsmEventArg`, or
/// the text of its error.
pub uninterp spec fn inap_report_octets(events: Seq<(EventType, MonitorMode)>) -> Result<Seq<u8>, Seq<char>>;

/// Calls `inap::encode` on an `inap::operations::RequestReportBcsmEventArg` with these
/// fields. The outcome is the named one.
#[verifier::external_body]
pub(crate) fn encode_inap_report(events: Vec<(EventType, MonitorMode)>) -> (r: Result<Vec<u8>, String>)
    ensures
        octets_outcome(r) == inap_report_octets(events@),
{
    ::inap::encode(&::inap::operations::RequestReportBcsmEventArg { bcsm_events: events.into_iter().map(armed_out).collect() }).map_err(|e| e.to_string())
}

/// The octets that `inap::encode` writes for an `inap` `ConnectArg`, or the text of its
/// error.
pub uninterp spec fn inap_connect_octets(addresses: Seq<Seq<u8>>, original: Option<Seq<u8>>) -> Result<Seq<u8>, Seq<char>>;

/// Calls `inap::encode` on an `inap::operations::ConnectArg` with these fields. The
/// outcome is the named one.
#[verifier::external_body]
pub(crate) fn encode_inap_connect(addresses: Vec<Vec<u8>>, original: Option<Vec<u8>>) -> (r: Result<Vec<u8>, String>)
    ensures
        octets_outcome(r) == inap_connect_octets(octet_lists(addresses@), octets(original)),
{
    ::inap::encode(&::inap::operations::ConnectArg { destination_routing_address: addresses.into_iter().map(Into::into).collect(), correlation_id: None, original_called_party_id: original.map(Into::into), scf_id: None }).map_err(|e| e.to_string())
}

/// The octets that `inap::encode` writes for an `inap` `ReleaseCallArg`, or the text of
/// its error.
pub uninterp spec fn inap_release_octets(cause: Seq<u8>) -> Result<Seq<u8>, Seq<char>>;

/// Calls `inap::encode` on an `inap::operations::ReleaseCallArg` with these fields. The
/// outcome is the named one.
#[verifier::external_body]
pub(crate) fn encode_inap_release(cause: Vec<u8>) -> (r: Result<Vec<u8>, String>)
    ensures
        octets_outcome(r) == inap_release_octets(cause@),
{
    ::inap::encode(&::inap::operations::ReleaseCallArg(cause.into())).map_err(|e| e.to_string())
}

/// The octets that `inap::encode` writes for an `inap` `ApplyChargingArg`, or the text
/// of its error.
pub uninterp spec fn inap_charging_octets(characteristics: Seq<u8>, party: Option<LegModel>) -> Result<Seq<u8>, Seq<char>>;

/// The `inap` `LegId` of a leg.
#[verifier::external_body]
fn leg_out(l: Leg) -> WireLeg {
    match l {
        Leg::Sending(b) => WireLeg::SendingSideId(b.into()),
        Leg::Receiving(b) => WireLeg::ReceivingSideId(b.into()),
    }
}

/// Calls `inap::encode` on an `inap::operations::ApplyChargingArg` with these fields.
/// The outcome is the named one.
#[verifier::external_body]
pub(crate) fn encode_inap_charging(characteristics: Vec<u8>, party: Option<Leg>) -> (r: Result<Vec<u8>, String>)
    ensures
        octets_outcome(r) == inap_charging_octets(characteristics@, maybe_leg(party)),
{
    ::inap::encode(&::inap::operations::ApplyChargingArg { ach_billing_charging_characteristics: characteristics.into(), party_to_charge: party.map(leg_out) }).map_err(|e| e.to_string())
}

/// The octets that `inap::encode` writes for an `inap` `PlayAnnouncementArg`, or the
/// text of its error.
pub uninterp spec fn play_octets(information: Seq<u8>, disconnect_forbidden: Option<bool>, announce_complete: Option<bool>) -> Result<Seq<u8>, Seq<char>>;

/// Calls `inap::encode` on an `inap::operations::PlayAnnouncementArg` with these
/// fields. The outcome is the named one.
#[verifier::external_body]
pub(crate) fn encode_play(information: Vec<u8>, disconnect_forbidden: Option<bool>, announce_complete: Option<bool>) -> (r: Result<Vec<u8>, String>)
    ensures
        octets_outcome(r) == play_octets(information@, disconnect_forbidden, announce_complete),
{
    ::inap::encode(&::inap::operations::PlayAnnouncementArg { information_to_send: information.into(), disconnect_from_ip_forbidden: disconnect_forbidden, request_announcement_complete: announce_complete }).map_err(|e| e.to_string())
}

/// The octets that `inap::encode` writes for an `inap`
/// `PromptAndCollectUserInformationArg`, or the text of its error.
pub uninterp spec fn prompt_octets(collected_info: Seq<u8>, disconnect_forbidden: Option<bool>, information: Option<Seq<u8>>) -> Result<Seq<u8>, Seq<char>>;

/// Calls `inap::encode` on an `inap::operations::PromptAndCollectUserInformationArg`
/// with these fields. The outcome is the named one.
#[verifier::external_body]
pub(crate) fn encode_prompt(collected_info: Vec<u8>, disconnect_forbidden: Option<bool>, information: Option<Vec<u8>>) -> (r: Result<Vec<u8>, String>)
    ensures
        octets_outcome(r) == prompt_octets(collected_info@, disconnect_forbidden, octets(information)),
{
    ::inap::encode(&::inap::operations::PromptAndCollectUserInformationArg { collected_info: collected_info.into(), disconnect_from_ip_forbidden: disconnect_forbidden, information_to_send: information.map(Into::into) }).map_err(|e| e.to_string())
}

/// The octets that `inap::encode` writes for an `inap` `ConnectToResourceArg`, or the
/// text of its error.
pub uninterp spec fn resource_octets(address: Option<Seq<u8>>, none: bool) -> Result<Seq<u8>, Seq<char>>;

/// Calls `inap::encode` on an `inap::operations::ConnectToResourceArg` with these
/// fields. The outcome is the named one.
#[verifier::external_body]
pub(crate) fn encode_resource(address: Option<Vec<u8>>, none: bool) -> (r: Result<Vec<u8>, String>)
    ensures
        octets_outcome(r) == resource_octets(octets(address), none),
{
    ::inap::encode(&::inap::operations::ConnectToResourceArg { resource_address_ipv4: address.map(Into::into), resource_address_none: none.then_some(()) }).map_err(|e| e.to_string())
}

} // verus!
