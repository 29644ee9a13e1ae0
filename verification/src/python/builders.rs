//! The invokes and results that a script builds, and the application contexts it
//! names.
use crate::python::codec::{
    auth_info_res_octets, called_party_octets, cap_charging_octets, cap_connect_octets,
    cap_release_octets, cap_report_octets, e164_octets, encode_auth_info_res, encode_called_party,
    encode_cap_charging, encode_cap_connect, encode_cap_release, encode_cap_report, encode_e164,
    encode_imsi, encode_inap_charging, encode_inap_connect, encode_inap_release, encode_inap_report,
    encode_insert_subscriber_data, encode_mo_forward_sm, encode_mt_forward_sm, encode_play,
    encode_prompt, encode_purge_ms_res, encode_resource, encode_sri_sm_res,
    encode_update_location_res, imsi_octets, inap_charging_octets, inap_connect_octets,
    inap_release_octets, inap_report_octets, insert_subscriber_data_octets, mo_forward_sm_octets,
    mt_forward_sm_octets, octet_lists, play_octets, prompt_octets, purge_ms_res_octets,
    resource_octets, sri_sm_res_octets, update_location_res_octets, AuthSet, EventType, Leg, LegModel,
    MonitorMode, Quintuplet, SmDestination, SmDestinationModel, SmOrigin, SmOriginModel, Triplet,
};
use crate::python::command::{Prepared, StagedInvoke, StagedResult};
use crate::python::error::{Refusal, SigtranError};
use crate::sccp::message::octets_outcome;
use crate::transaction::octets;
use crate::transport::msu::copy_octets;
use vstd::prelude::*;
use vstd::string::*;

verus! {

// ── Addresses ───────────────────────────────────────────────────────────────

/// An address that a script gives: digits to be encoded, or octets as they are.
#[derive(Clone, Debug, PartialEq, Eq)]
pub enum AddrArg {
    Digits(String),
    Octets(Vec<u8>),
}

/// What an [`AddrArg`] holds.
pub enum AddrModel {
    Digits(Seq<char>),
    Octets(Seq<u8>),
}

impl View for AddrArg {
    type V = AddrModel;

    open spec fn view(&self) -> AddrModel {
        match *self {
            AddrArg::Digits(d) => AddrModel::Digits(d@),
            AddrArg::Octets(b) => AddrModel::Octets(b@),
        }
    }
}

/// What an optional address holds.
pub open spec fn maybe_addr(o: Option<AddrArg>) -> Option<AddrModel> {
    match o {
        Some(a) => Some(a@),
        None => None,
    }
}

/// The outcome of encoding an address.
pub open spec fn addr_outcome(r: Result<Vec<u8>, SigtranError>) -> Result<Seq<u8>, Refusal> {
    match r {
        Ok(v) => Ok(v@),
        Err(e) => Err(e@),
    }
}

/// The outcome of a codec as a script sees it.
pub open spec fn seen(r: Result<Seq<u8>, Seq<char>>) -> Result<Seq<u8>, Refusal> {
    match r {
        Ok(b) => Ok(b),
        Err(t) => Err(Refusal::Codec(t)),
    }
}

fn seen_of(r: Result<Vec<u8>, String>) -> (x: Result<Vec<u8>, SigtranError>)
    ensures
        addr_outcome(x) == seen(octets_outcome(r)),
{
    match r {
        Ok(v) => Ok(v),
        Err(t) => Err(SigtranError::Codec(t)),
    }
}

/// An ISDN address: digits as an international E.164 number, or octets as they are.
pub open spec fn isdn_octets(a: AddrModel) -> Result<Seq<u8>, Refusal> {
    match a {
        AddrModel::Digits(d) => seen(e164_octets(d)),
        AddrModel::Octets(b) => Ok(b),
    }
}

/// An ISDN address: digits as an international E.164 number, or octets as they are.
pub fn isdn_addr(a: &AddrArg) -> (r: Result<Vec<u8>, SigtranError>)
    ensures
        addr_outcome(r) == isdn_octets(a@),
{
    match a {
        AddrArg::Digits(d) => seen_of(encode_e164(d.as_str())),
        AddrArg::Octets(b) => Ok(copy_octets(b)),
    }
}

/// An IMSI: digits as a TBCD string, or octets as they are.
pub open spec fn imsi_arg_octets(a: AddrModel) -> Result<Seq<u8>, Refusal> {
    match a {
        AddrModel::Digits(d) => seen(imsi_octets(d)),
        AddrModel::Octets(b) => Ok(b),
    }
}

/// An IMSI: digits as a TBCD string, or octets as they are.
pub fn imsi_arg(a: &AddrArg) -> (r: Result<Vec<u8>, SigtranError>)
    ensures
        addr_outcome(r) == imsi_arg_octets(a@),
{
    match a {
        AddrArg::Digits(d) => seen_of(encode_imsi(d.as_str())),
        AddrArg::Octets(b) => Ok(copy_octets(b)),
    }
}

/// A called party number: digits as an international E.164 number, or octets as they are.
pub open spec fn called_octets(a: AddrModel) -> Result<Seq<u8>, Refusal> {
    match a {
        AddrModel::Digits(d) => seen(called_party_octets(d)),
        AddrModel::Octets(b) => Ok(b),
    }
}

/// A called party number: digits as an international E.164 number, or octets as they are.
pub fn called_party(a: &AddrArg) -> (r: Result<Vec<u8>, SigtranError>)
    ensures
        addr_outcome(r) == called_octets(a@),
{
    match a {
        AddrArg::Digits(d) => seen_of(encode_called_party(d.as_str())),
        AddrArg::Octets(b) => Ok(copy_octets(b)),
    }
}

/// The outcome of encoding an optional address.
pub open spec fn maybe_outcome(r: Result<Option<Vec<u8>>, SigtranError>) -> Result<
    Option<Seq<u8>>,
    Refusal,
> {
    match r {
        Ok(o) => Ok(octets(o)),
        Err(e) => Err(e@),
    }
}

/// An optional ISDN address.
pub open spec fn maybe_isdn_octets(o: Option<AddrModel>) -> Result<Option<Seq<u8>>, Refusal> {
    match o {
        None => Ok(None),
        Some(a) => match isdn_octets(a) {
            Ok(b) => Ok(Some(b)),
            Err(e) => Err(e),
        },
    }
}

fn maybe_isdn(o: &Option<AddrArg>) -> (r: Result<Option<Vec<u8>>, SigtranError>)
    ensures
        maybe_outcome(r) == maybe_isdn_octets(maybe_addr(*o)),
{
    match o {
        None => Ok(None),
        Some(a) => match isdn_addr(a) {
            Ok(b) => Ok(Some(b)),
            Err(e) => Err(e),
        },
    }
}

/// An optional IMSI.
pub open spec fn maybe_imsi_octets(o: Option<AddrModel>) -> Result<Option<Seq<u8>>, Refusal> {
    match o {
        None => Ok(None),
        Some(a) => match imsi_arg_octets(a) {
            Ok(b) => Ok(Some(b)),
            Err(e) => Err(e),
        },
    }
}

fn maybe_imsi(o: &Option<AddrArg>) -> (r: Result<Option<Vec<u8>>, SigtranError>)
    ensures
        maybe_outcome(r) == maybe_imsi_octets(maybe_addr(*o)),
{
    match o {
        None => Ok(None),
        Some(a) => match imsi_arg(a) {
            Ok(b) => Ok(Some(b)),
            Err(e) => Err(e),
        },
    }
}

/// An optional called party number.
pub open spec fn maybe_called_octets(o: Option<AddrModel>) -> Result<Option<Seq<u8>>, Refusal> {
    match o {
        None => Ok(None),
        Some(a) => match called_octets(a) {
            Ok(b) => Ok(Some(b)),
            Err(e) => Err(e),
        },
    }
}

fn maybe_called(o: &Option<AddrArg>) -> (r: Result<Option<Vec<u8>>, SigtranError>)
    ensures
        maybe_outcome(r) == maybe_called_octets(maybe_addr(*o)),
{
    match o {
        None => Ok(None),
        Some(a) => match called_party(a) {
            Ok(b) => Ok(Some(b)),
            Err(e) => Err(e),
        },
    }
}

/// What a list of addresses holds.
pub open spec fn addr_models(s: Seq<AddrArg>) -> Seq<AddrModel> {
    s.map_values(|a: AddrArg| a@)
}

/// The first `n` called party numbers of a list, or the first refusal.
pub open spec fn called_list(s: Seq<AddrModel>, n: int) -> Result<Seq<Seq<u8>>, Refusal>
    decreases n,
{
    if n <= 0 {
        Ok(Seq::empty())
    } else {
        match called_list(s, n - 1) {
            Err(e) => Err(e),
            Ok(before) => match called_octets(s[n - 1]) {
                Err(e) => Err(e),
                Ok(b) => Ok(before.push(b)),
            },
        }
    }
}

/// The outcome of encoding a list of addresses.
pub open spec fn list_outcome(r: Result<Vec<Vec<u8>>, SigtranError>) -> Result<
    Seq<Seq<u8>>,
    Refusal,
> {
    match r {
        Ok(v) => Ok(octet_lists(v@)),
        Err(e) => Err(e@),
    }
}

/// A refusal among the first numbers is the refusal of the list.
proof fn refusal_stays(s: Seq<AddrModel>, k: int, n: int)
    requires
        0 <= k <= n,
        called_list(s, k) is Err,
    ensures
        called_list(s, n) == called_list(s, k),
    decreases n - k,
{
    if k < n {
        refusal_stays(s, k, n - 1);
    }
}

fn called_parties(list: &Vec<AddrArg>) -> (r: Result<Vec<Vec<u8>>, SigtranError>)
    ensures
        list_outcome(r) == called_list(addr_models(list@), list@.len() as int),
{
    let ghost s = addr_models(list@);
    let mut out: Vec<Vec<u8>> = Vec::new();
    let mut i: usize = 0;
    proof {
        assert(octet_lists(out@) =~= Seq::empty());
    }
    while i < list.len()
        invariant
            i <= list@.len(),
            s == addr_models(list@),
            called_list(s, i as int) == Ok::<Seq<Seq<u8>>, Refusal>(octet_lists(out@)),
        decreases list.len() - i,
    {
        proof {
            assert(s[i as int] == list@[i as int]@);
        }
        match called_party(&list[i]) {
            Ok(b) => {
                let ghost before = out@;
                out.push(b);
                proof {
                    assert(octet_lists(out@) =~= octet_lists(before).push(b@));
                }
            },
            Err(e) => {
                proof {
                    refusal_stays(s, i + 1, list@.len() as int);
                }
                return Err(e);
            },
        }
        i += 1;
    }
    Ok(out)
}

// ── Staging ─────────────────────────────────────────────────────────────────

/// An operation with the octets of its argument or result, or the codec's refusal.
pub open spec fn prepared(op: i64, r: Result<Seq<u8>, Seq<char>>) -> Result<Prepared, Refusal> {
    match r {
        Ok(b) => Ok(Prepared { op, octets: Some(b) }),
        Err(t) => Err(Refusal::Codec(t)),
    }
}

/// The outcome of building an invoke.
pub open spec fn invoke_outcome(r: Result<StagedInvoke, SigtranError>) -> Result<
    Prepared,
    Refusal,
> {
    match r {
        Ok(i) => Ok(i@),
        Err(e) => Err(e@),
    }
}

/// The outcome of building a result.
pub open spec fn result_outcome(r: Result<StagedResult, SigtranError>) -> Result<
    Prepared,
    Refusal,
> {
    match r {
        Ok(i) => Ok(i@),
        Err(e) => Err(e@),
    }
}

fn stage_invoke(op: i64, r: Result<Vec<u8>, String>) -> (x: Result<StagedInvoke, SigtranError>)
    ensures
        invoke_outcome(x) == prepared(op, octets_outcome(r)),
{
    match r {
        Ok(b) => Ok(StagedInvoke { op, arg: Some(b) }),
        Err(t) => Err(SigtranError::Codec(t)),
    }
}

fn stage_result(op: i64, r: Result<Vec<u8>, String>) -> (x: Result<StagedResult, SigtranError>)
    ensures
        result_outcome(x) == prepared(op, octets_outcome(r)),
{
    match r {
        Ok(b) => Ok(StagedResult { op, param: Some(b) }),
        Err(t) => Err(SigtranError::Codec(t)),
    }
}

/// An empty BER SEQUENCE.
pub open spec fn empty_sequence() -> Seq<u8> {
    seq![0x30u8, 0x00u8]
}

fn empty_result(op: i64) -> (r: StagedResult)
    ensures
        r@ == (Prepared { op, octets: Some(empty_sequence()) }),
{
    let mut b: Vec<u8> = Vec::new();
    b.push(0x30);
    b.push(0x00);
    proof {
        assert(b@ =~= empty_sequence());
    }
    StagedResult { op, param: Some(b) }
}

/// The vectors of an authentication response: quintuplets before triplets.
pub fn auth_set(quintuplets: Option<Vec<Quintuplet>>, triplets: Option<Vec<Triplet>>) -> (r:
    AuthSet)
    ensures
        r == match (quintuplets, triplets) {
            (Some(q), _) => AuthSet::Quintuplets(q),
            (None, Some(t)) => AuthSet::Triplets(t),
            (None, None) => AuthSet::Empty,
        },
{
    match quintuplets {
        Some(q) => AuthSet::Quintuplets(q),
        None => match triplets {
            Some(t) => AuthSet::Triplets(t),
            None => AuthSet::Empty,
        },
    }
}

// ── Detection points ────────────────────────────────────────────────────────

/// The number of a detection point (TS 29.078, ITU-T Q.1218).
pub open spec fn event_number(e: EventType) -> i64 {
    match e {
        EventType::CollectedInfo => 2,
        EventType::AnalysedInformation => 3,
        EventType::RouteSelectFailure => 4,
        EventType::OCalledPartyBusy => 5,
        EventType::ONoAnswer => 6,
        EventType::OAnswer => 7,
        EventType::ODisconnect => 9,
        EventType::OAbandon => 10,
        EventType::TermAttemptAuthorized => 12,
        EventType::TBusy => 13,
        EventType::TNoAnswer => 14,
        EventType::TAnswer => 15,
        EventType::TDisconnect => 17,
        EventType::TAbandon => 18,
    }
}

/// The number of a monitor mode.
pub open spec fn mode_number(m: MonitorMode) -> i64 {
    match m {
        MonitorMode::Interrupted => 0,
        MonitorMode::NotifyAndContinue => 1,
        MonitorMode::Transparent => 2,
    }
}

/// The detection point with this number, or a refusal if there is none.
pub fn event_type_bcsm(v: i64) -> (r: Result<EventType, SigtranError>)
    ensures
        match r {
            Ok(e) => event_number(e) == v,
            Err(x) => x@ == Refusal::UnknownEventType(v) && forall|e: EventType|
                event_number(e) != v,
        },
{
    match v {
        2 => Ok(EventType::CollectedInfo),
        3 => Ok(EventType::AnalysedInformation),
        4 => Ok(EventType::RouteSelectFailure),
        5 => Ok(EventType::OCalledPartyBusy),
        6 => Ok(EventType::ONoAnswer),
        7 => Ok(EventType::OAnswer),
        9 => Ok(EventType::ODisconnect),
        10 => Ok(EventType::OAbandon),
        12 => Ok(EventType::TermAttemptAuthorized),
        13 => Ok(EventType::TBusy),
        14 => Ok(EventType::TNoAnswer),
        15 => Ok(EventType::TAnswer),
        17 => Ok(EventType::TDisconnect),
        18 => Ok(EventType::TAbandon),
        _ => Err(SigtranError::UnknownEventType(v)),
    }
}

/// The monitor mode with this number, or a refusal if there is none.
pub fn monitor_mode(v: i64) -> (r: Result<MonitorMode, SigtranError>)
    ensures
        match r {
            Ok(m) => mode_number(m) == v,
            Err(x) => x@ == Refusal::UnknownMonitorMode(v) && forall|m: MonitorMode|
                mode_number(m) != v,
        },
{
    match v {
        0 => Ok(MonitorMode::Interrupted),
        1 => Ok(MonitorMode::NotifyAndContinue),
        2 => Ok(MonitorMode::Transparent),
        _ => Err(SigtranError::UnknownMonitorMode(v)),
    }
}

/// Some detection point has this number.
pub open spec fn is_event(v: i64) -> bool {
    exists|e: EventType| event_number(e) == v
}

/// Some monitor mode has this number.
pub open spec fn is_mode(v: i64) -> bool {
    exists|m: MonitorMode| mode_number(m) == v
}

/// The first refusal among pairs of numbers from `from` on: a detection point that
/// is not one, else a monitor mode that is not one.
pub open spec fn arming_refusal(s: Seq<(i64, i64)>, from: int) -> Option<Refusal>
    decreases s.len() - from,
{
    if from < 0 || from >= s.len() {
        None
    } else if !is_event(s[from].0) {
        Some(Refusal::UnknownEventType(s[from].0))
    } else if !is_mode(s[from].1) {
        Some(Refusal::UnknownMonitorMode(s[from].1))
    } else {
        arming_refusal(s, from + 1)
    }
}

/// `armed` are the detection points and modes with these numbers.
pub open spec fn arms(armed: Seq<(EventType, MonitorMode)>, s: Seq<(i64, i64)>) -> bool {
    &&& armed.len() == s.len()
    &&& forall|i: int|
        0 <= i < s.len() ==> event_number((#[trigger] armed[i]).0) == s[i].0 && mode_number(
            armed[i].1,
        ) == s[i].1
}

/// The detection points and modes with these numbers, or the first refusal.
pub fn arm_events(s: &Vec<(i64, i64)>) -> (r: Result<Vec<(EventType, MonitorMode)>, SigtranError>)
    ensures
        match r {
            Ok(a) => arming_refusal(s@, 0) is None && arms(a@, s@),
            Err(e) => arming_refusal(s@, 0) == Some(e@),
        },
{
    let mut out: Vec<(EventType, MonitorMode)> = Vec::new();
    let mut i: usize = 0;
    while i < s.len()
        invariant
            i <= s@.len(),
            out@.len() == i,
            arming_refusal(s@, 0) == arming_refusal(s@, i as int),
            forall|k: int|
                0 <= k < i ==> event_number((#[trigger] out@[k]).0) == s@[k].0 && mode_number(
                    out@[k].1,
                ) == s@[k].1,
        decreases s.len() - i,
    {
        let e = match event_type_bcsm(s[i].0) {
            Ok(e) => e,
            Err(x) => {
                return Err(x);
            },
        };
        let m = match monitor_mode(s[i].1) {
            Ok(m) => m,
            Err(x) => {
                return Err(x);
            },
        };
        out.push((e, m));
        i += 1;
    }
    Ok(out)
}

// ── MAP ─────────────────────────────────────────────────────────────────────

/// The MAP namespace (TS 29.002).
#[derive(Clone, Copy, Debug)]
pub struct GsmMap;

impl GsmMap {
    /// An MO-ForwardSM result, without a parameter.
    pub fn mo_forward_sm_res(&self) -> (r: StagedResult)
        ensures
            r@ == (Prepared { op: 46, octets: None }),
    {
        StagedResult { op: 46, param: None }
    }

    /// An MT-ForwardSM result, without a parameter.
    pub fn mt_forward_sm_res(&self) -> (r: StagedResult)
        ensures
            r@ == (Prepared { op: 44, octets: None }),
    {
        StagedResult { op: 44, param: None }
    }

    /// A SendRoutingInfoForSM result: the recipient and the node that serves it.
    pub fn send_routing_info_for_sm_res(
        &self,
        imsi: &AddrArg,
        network_node_number: &AddrArg,
        lmsi: Option<Vec<u8>>,
    ) -> (r: Result<StagedResult, SigtranError>)
        ensures
            result_outcome(r) == match imsi_arg_octets(imsi@) {
                Err(e) => Err(e),
                Ok(i) => match isdn_octets(network_node_number@) {
                    Err(e) => Err(e),
                    Ok(n) => prepared(45, sri_sm_res_octets(i, n, octets(lmsi))),
                },
            },
    {
        let i = match imsi_arg(imsi) {
            Ok(i) => i,
            Err(e) => {
                return Err(e);
            },
        };
        let n = match isdn_addr(network_node_number) {
            Ok(n) => n,
            Err(e) => {
                return Err(e);
            },
        };
        stage_result(45, encode_sri_sm_res(i, n, lmsi))
    }

    /// An updateLocation result.
    pub fn update_location_res(&self, hlr_number: &AddrArg) -> (r: Result<
        StagedResult,
        SigtranError,
    >)
        ensures
            result_outcome(r) == match isdn_octets(hlr_number@) {
                Err(e) => Err(e),
                Ok(n) => prepared(2, update_location_res_octets(n)),
            },
    {
        match isdn_addr(hlr_number) {
            Ok(n) => stage_result(2, encode_update_location_res(n)),
            Err(e) => Err(e),
        }
    }

    /// A sendAuthenticationInfo result with these vectors, quintuplets before
    /// triplets.
    pub fn send_authentication_info_res(
        &self,
        quintuplets: Option<Vec<Quintuplet>>,
        triplets: Option<Vec<Triplet>>,
    ) -> (r: Result<StagedResult, SigtranError>)
        ensures
            result_outcome(r) == prepared(
                56,
                auth_info_res_octets(
                    match (quintuplets, triplets) {
                        (Some(q), _) => AuthSet::Quintuplets(q),
                        (None, Some(t)) => AuthSet::Triplets(t),
                        (None, None) => AuthSet::Empty,
                    }@,
                ),
            ),
    {
        stage_result(56, encode_auth_info_res(auth_set(quintuplets, triplets)))
    }

    /// An insertSubscriberData result: the data is accepted.
    pub fn insert_subscriber_data_res(&self) -> (r: StagedResult)
        ensures
            r@ == (Prepared { op: 7, octets: Some(empty_sequence()) }),
    {
        empty_result(7)
    }

    /// A cancelLocation result.
    pub fn cancel_location_res(&self) -> (r: StagedResult)
        ensures
            r@ == (Prepared { op: 3, octets: Some(empty_sequence()) }),
    {
        empty_result(3)
    }

    /// A purgeMS result, with the temporary identities to hold back from reuse.
    pub fn purge_ms_res(&self, freeze_tmsi: bool, freeze_p_tmsi: bool) -> (r: Result<
        StagedResult,
        SigtranError,
    >)
        ensures
            result_outcome(r) == prepared(67, purge_ms_res_octets(freeze_tmsi, freeze_p_tmsi)),
    {
        stage_result(67, encode_purge_ms_res(freeze_tmsi, freeze_p_tmsi))
    }

    /// A readyForSM result.
    pub fn ready_for_sm_res(&self) -> (r: StagedResult)
        ensures
            r@ == (Prepared { op: 66, octets: Some(empty_sequence()) }),
    {
        empty_result(66)
    }

    /// An insertSubscriberData invoke.
    pub fn insert_subscriber_data(&self, imsi: Option<AddrArg>, msisdn: Option<AddrArg>) -> (r:
        Result<StagedInvoke, SigtranError>)
        ensures
            invoke_outcome(r) == match maybe_imsi_octets(maybe_addr(imsi)) {
                Err(e) => Err(e),
                Ok(i) => match maybe_isdn_octets(maybe_addr(msisdn)) {
                    Err(e) => Err(e),
                    Ok(n) => prepared(7, insert_subscriber_data_octets(i, n)),
                },
            },
    {
        let i = match maybe_imsi(&imsi) {
            Ok(i) => i,
            Err(e) => {
                return Err(e);
            },
        };
        let n = match maybe_isdn(&msisdn) {
            Ok(n) => n,
            Err(e) => {
                return Err(e);
            },
        };
        stage_invoke(7, encode_insert_subscriber_data(i, n))
    }

    /// An MO-ForwardSM invoke: a short message from a subscriber to a service
    /// centre.
    pub fn mo_forward_sm(
        &self,
        sc_addr: &AddrArg,
        msisdn: &AddrArg,
        tpdu: Vec<u8>,
        imsi: Option<AddrArg>,
    ) -> (r: Result<StagedInvoke, SigtranError>)
        ensures
            invoke_outcome(r) == match isdn_octets(sc_addr@) {
                Err(e) => Err(e),
                Ok(sc) => match isdn_octets(msisdn@) {
                    Err(e) => Err(e),
                    Ok(n) => match maybe_imsi_octets(maybe_addr(imsi)) {
                        Err(e) => Err(e),
                        Ok(i) => prepared(
                            46,
                            mo_forward_sm_octets(
                                SmDestinationModel::ServiceCentre(sc),
                                SmOriginModel::Msisdn(n),
                                tpdu@,
                                i,
                            ),
                        ),
                    },
                },
            },
    {
        let sc = match isdn_addr(sc_addr) {
            Ok(b) => b,
            Err(e) => {
                return Err(e);
            },
        };
        let n = match isdn_addr(msisdn) {
            Ok(b) => b,
            Err(e) => {
                return Err(e);
            },
        };
        let i = match maybe_imsi(&imsi) {
            Ok(b) => b,
            Err(e) => {
                return Err(e);
            },
        };
        let (da, oa) = (SmDestination::ServiceCentre(sc), SmOrigin::Msisdn(n));
        stage_invoke(46, encode_mo_forward_sm(da, oa, tpdu, i))
    }

    /// An MT-ForwardSM invoke: a short message from a service centre to a
    /// subscriber.
    pub fn mt_forward_sm(
        &self,
        imsi: &AddrArg,
        sc_addr: &AddrArg,
        tpdu: Vec<u8>,
        more_messages_to_send: bool,
    ) -> (r: Result<StagedInvoke, SigtranError>)
        ensures
            invoke_outcome(r) == match imsi_arg_octets(imsi@) {
                Err(e) => Err(e),
                Ok(i) => match isdn_octets(sc_addr@) {
                    Err(e) => Err(e),
                    Ok(sc) => prepared(
                        44,
                        mt_forward_sm_octets(
                            SmDestinationModel::Imsi(i),
                            SmOriginModel::ServiceCentre(sc),
                            tpdu@,
                            more_messages_to_send,
                        ),
                    ),
                },
            },
    {
        let i = match imsi_arg(imsi) {
            Ok(b) => b,
            Err(e) => {
                return Err(e);
            },
        };
        let sc = match isdn_addr(sc_addr) {
            Ok(b) => b,
            Err(e) => {
                return Err(e);
            },
        };
        let (da, oa) = (SmDestination::Imsi(i), SmOrigin::ServiceCentre(sc));
        stage_invoke(44, encode_mt_forward_sm(da, oa, tpdu, more_messages_to_send))
    }
}

// ── CAP ─────────────────────────────────────────────────────────────────────

/// The CAMEL CAP namespace (TS 29.078).
#[derive(Clone, Copy, Debug)]
pub struct GsmCap;

impl GsmCap {
    /// A Connect invoke to these called party numbers.
    pub fn connect(&self, destination_routing_address: &Vec<AddrArg>) -> (r: Result<
        StagedInvoke,
        SigtranError,
    >)
        ensures
            invoke_outcome(r) == match called_list(
                addr_models(destination_routing_address@),
                destination_routing_address@.len() as int,
            ) {
                Err(e) => Err(e),
                Ok(list) => prepared(20, cap_connect_octets(list)),
            },
    {
        match called_parties(destination_routing_address) {
            Ok(list) => stage_invoke(20, encode_cap_connect(list)),
            Err(e) => Err(e),
        }
    }

    /// A ReleaseCall invoke with a cause.
    pub fn release_call(&self, cause: Vec<u8>) -> (r: Result<StagedInvoke, SigtranError>)
        ensures
            invoke_outcome(r) == prepared(22, cap_release_octets(cause@)),
    {
        stage_invoke(22, encode_cap_release(cause))
    }

    /// A RequestReportBCSMEvent invoke that arms these detection points, given as
    /// pairs of numbers.
    pub fn request_report_bcsm_event(&self, events: &Vec<(i64, i64)>) -> (r: Result<
        StagedInvoke,
        SigtranError,
    >)
        ensures
            match arming_refusal(events@, 0) {
                Some(e) => invoke_outcome(r) == Err::<Prepared, Refusal>(e),
                None => exists|a: Seq<(EventType, MonitorMode)>|
                    arms(a, events@) && invoke_outcome(r) == prepared(
                        23,
                        #[trigger] cap_report_octets(a),
                    ),
            },
    {
        match arm_events(events) {
            Ok(a) => stage_invoke(23, encode_cap_report(a)),
            Err(e) => Err(e),
        }
    }

    /// An ApplyCharging invoke.
    pub fn apply_charging(
        &self,
        charging_characteristics: Vec<u8>,
        party_to_charge: Option<Vec<u8>>,
    ) -> (r: Result<StagedInvoke, SigtranError>)
        ensures
            invoke_outcome(r) == prepared(
                35,
                cap_charging_octets(charging_characteristics@, octets(party_to_charge)),
            ),
    {
        stage_invoke(35, encode_cap_charging(charging_characteristics, party_to_charge))
    }

    /// A Continue invoke, which has no argument.
    pub fn continue_(&self) -> (r: StagedInvoke)
        ensures
            r@ == (Prepared { op: 31, octets: None }),
    {
        StagedInvoke { op: 31, arg: None }
    }
}

// ── INAP ────────────────────────────────────────────────────────────────────

/// The INAP CS-1 namespace (ITU-T Q.1218).
#[derive(Clone, Copy, Debug)]
pub struct Inap;

impl Inap {
    /// A RequestReportBCSMEvent invoke that arms these detection points, given as
    /// pairs of numbers.
    pub fn request_report_bcsm_event(&self, events: &Vec<(i64, i64)>) -> (r: Result<
        StagedInvoke,
        SigtranError,
    >)
        ensures
            match arming_refusal(events@, 0) {
                Some(e) => invoke_outcome(r) == Err::<Prepared, Refusal>(e),
                None => exists|a: Seq<(EventType, MonitorMode)>|
                    arms(a, events@) && invoke_outcome(r) == prepared(
                        23,
                        #[trigger] inap_report_octets(a),
                    ),
            },
    {
        match arm_events(events) {
            Ok(a) => stage_invoke(23, encode_inap_report(a)),
            Err(e) => Err(e),
        }
    }

    /// A Connect invoke to these called party numbers, with the number that was
    /// dialled first.
    pub fn connect(
        &self,
        destination_routing_address: &Vec<AddrArg>,
        original_called_party_id: Option<AddrArg>,
    ) -> (r: Result<StagedInvoke, SigtranError>)
        ensures
            invoke_outcome(r) == match called_list(
                addr_models(destination_routing_address@),
                destination_routing_address@.len() as int,
            ) {
                Err(e) => Err(e),
                Ok(list) => match maybe_called_octets(maybe_addr(original_called_party_id)) {
                    Err(e) => Err(e),
                    Ok(o) => prepared(20, inap_connect_octets(list, o)),
                },
            },
    {
        let list = match called_parties(destination_routing_address) {
            Ok(list) => list,
            Err(e) => {
                return Err(e);
            },
        };
        match maybe_called(&original_called_party_id) {
            Ok(o) => stage_invoke(20, encode_inap_connect(list, o)),
            Err(e) => Err(e),
        }
    }

    /// A Continue invoke, which has no argument.
    pub fn continue_(&self) -> (r: StagedInvoke)
        ensures
            r@ == (Prepared { op: 31, octets: None }),
    {
        StagedInvoke { op: 31, arg: None }
    }

    /// A ReleaseCall invoke with a cause.
    pub fn release_call(&self, cause: Vec<u8>) -> (r: Result<StagedInvoke, SigtranError>)
        ensures
            invoke_outcome(r) == prepared(22, inap_release_octets(cause@)),
    {
        stage_invoke(22, encode_inap_release(cause))
    }

    /// An ApplyCharging invoke. A party to charge is named by its sending side.
    pub fn apply_charging(
        &self,
        charging_characteristics: Vec<u8>,
        party_to_charge: Option<Vec<u8>>,
    ) -> (r: Result<StagedInvoke, SigtranError>)
        ensures
            invoke_outcome(r) == prepared(
                35,
                inap_charging_octets(
                    charging_characteristics@,
                    match octets(party_to_charge) {
                        Some(b) => Some(LegModel::Sending(b)),
                        None => None,
                    },
                ),
            ),
    {
        let party = match party_to_charge {
            Some(b) => Some(Leg::Sending(b)),
            None => None,
        };
        stage_invoke(35, encode_inap_charging(charging_characteristics, party))
    }

    /// A PlayAnnouncement invoke.
    pub fn play_announcement(
        &self,
        information_to_send: Vec<u8>,
        disconnect_from_ip_forbidden: Option<bool>,
        request_announcement_complete: Option<bool>,
    ) -> (r: Result<StagedInvoke, SigtranError>)
        ensures
            invoke_outcome(r) == prepared(
                47,
                play_octets(
                    information_to_send@,
                    disconnect_from_ip_forbidden,
                    request_announcement_complete,
                ),
            ),
    {
        stage_invoke(
            47,
            encode_play(
                information_to_send,
                disconnect_from_ip_forbidden,
                request_announcement_complete,
            ),
        )
    }

    /// A PromptAndCollectUserInformation invoke.
    pub fn prompt_and_collect_user_information(
        &self,
        collected_info: Vec<u8>,
        disconnect_from_ip_forbidden: Option<bool>,
        information_to_send: Option<Vec<u8>>,
    ) -> (r: Result<StagedInvoke, SigtranError>)
        ensures
            invoke_outcome(r) == prepared(
                48,
                prompt_octets(
                    collected_info@,
                    disconnect_from_ip_forbidden,
                    octets(information_to_send),
                ),
            ),
    {
        stage_invoke(
            48,
            encode_prompt(collected_info, disconnect_from_ip_forbidden, information_to_send),
        )
    }

    /// A ConnectToResource invoke: to an address, or to the resource next to the
    /// switch when there is none.
    pub fn connect_to_resource(&self, ip_routing_address: Option<Vec<u8>>) -> (r: Result<
        StagedInvoke,
        SigtranError,
    >)
        ensures
            invoke_outcome(r) == prepared(
                19,
                resource_octets(octets(ip_routing_address), ip_routing_address is None),
            ),
    {
        let none = ip_routing_address.is_none();
        stage_invoke(19, encode_resource(ip_routing_address, none))
    }
}

// ── Application contexts ────────────────────────────────────────────────────

/// An application context, as object-identifier arcs.
#[derive(Clone, Debug, PartialEq, Eq)]
pub struct MapAcHandle {
    /// The arcs.
    pub arcs: Vec<u32>,
}

/// The arcs of a MAP application context in version 3 (TS 29.002).
pub open spec fn map_context(number: u32) -> Seq<u32> {
    seq![0u32, 4u32, 0u32, 0u32, 1u32, 0u32, number, 3u32]
}

fn eight_arcs(a: u32, b: u32, c: u32, d: u32, e: u32, f: u32, g: u32, h: u32) -> (r: MapAcHandle)
    ensures
        r.arcs@ == seq![a, b, c, d, e, f, g, h],
{
    let mut arcs: Vec<u32> = Vec::new();
    arcs.push(a);
    arcs.push(b);
    arcs.push(c);
    arcs.push(d);
    arcs.push(e);
    arcs.push(f);
    arcs.push(g);
    arcs.push(h);
    proof {
        assert(arcs@ =~= seq![a, b, c, d, e, f, g, h]);
    }
    MapAcHandle { arcs }
}

/// The MAP application contexts.
#[derive(Clone, Copy, Debug)]
pub struct MapAc;

impl MapAc {
    /// shortMsgMT-Relay, version 3.
    pub fn short_msg_mt_relay(&self) -> (r: MapAcHandle)
        ensures
            r.arcs@ == map_context(25),
    {
        eight_arcs(0, 4, 0, 0, 1, 0, 25, 3)
    }

    /// shortMsgGateway, version 3.
    pub fn short_msg_gateway(&self) -> (r: MapAcHandle)
        ensures
            r.arcs@ == map_context(20),
    {
        eight_arcs(0, 4, 0, 0, 1, 0, 20, 3)
    }

    /// shortMsgMO-Relay, version 3.
    pub fn short_msg_mo_relay(&self) -> (r: MapAcHandle)
        ensures
            r.arcs@ == map_context(21),
    {
        eight_arcs(0, 4, 0, 0, 1, 0, 21, 3)
    }
}

/// The CAP application contexts.
#[derive(Clone, Copy, Debug)]
pub struct CapAc;

impl CapAc {
    /// The generic gsmSSF-to-gsmSCF context, version 3.
    pub fn gsm_ssf_scf(&self) -> (r: MapAcHandle)
        ensures
            r.arcs@ == seq![0u32, 4u32, 0u32, 0u32, 1u32, 21u32, 3u32, 4u32],
    {
        eight_arcs(0, 4, 0, 0, 1, 21, 3, 4)
    }
}

/// The INAP application contexts.
#[derive(Clone, Copy, Debug)]
pub struct InapAc;

impl InapAc {
    /// The Core INAP CS-1 SSP-to-SCP context.
    pub fn ssp_to_scp(&self) -> (r: MapAcHandle)
        ensures
            r.arcs@ == seq![0u32, 4u32, 0u32, 1u32, 1u32, 0u32, 3u32, 0u32],
    {
        eight_arcs(0, 4, 0, 1, 1, 0, 3, 0)
    }
}

} // verus!
