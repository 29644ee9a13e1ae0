//! The adaptation-layer codecs as functions on plain values: M3UA, M2PA, the
//! MTP3 routing label, and SUA.
use crate::text::{are_signals, decimal};
use crate::transport::msu::{Msu, MsuModel};
use vstd::prelude::*;
use vstd::string::*;

verus! {

// ── M3UA ────────────────────────────────────────────────────────────────────

/// A decoded M3UA message: its class and type numbers, the name of its type, and
/// the parameters the transport reads.
#[derive(Debug)]
pub struct M3uaFrame {
    pub class: u8,
    pub kind: u8,
    pub name: String,
    pub routing_context: Option<u32>,
    pub affected: Vec<u32>,
    /// The protocol data, or why there is none.
    pub data: Result<Msu, String>,
}

/// What an [`M3uaFrame`] holds.
pub struct M3uaModel {
    pub class: u8,
    pub kind: u8,
    pub name: Seq<char>,
    pub routing_context: Option<u32>,
    pub affected: Seq<u32>,
    pub data: Result<MsuModel, Seq<char>>,
}

impl View for M3uaFrame {
    type V = M3uaModel;

    open spec fn view(&self) -> M3uaModel {
        M3uaModel {
            class: self.class,
            kind: self.kind,
            name: self.name@,
            routing_context: self.routing_context,
            affected: self.affected@,
            data: match self.data {
                Ok(m) => Ok(m@),
                Err(e) => Err(e@),
            },
        }
    }
}

/// The outcome of decoding an M3UA message.
pub open spec fn m3ua_outcome(r: Result<M3uaFrame, String>) -> Result<M3uaModel, Seq<char>> {
    match r {
        Ok(f) => Ok(f@),
        Err(e) => Err(e@),
    }
}

/// What `m3ua::M3uaMessage::decode` and the accessors of the message make of some
/// octets.
pub uninterp spec fn m3ua_decoded(bytes: Seq<u8>) -> Result<M3uaModel, Seq<char>>;

/// Calls `m3ua::M3uaMessage::decode` and reads the message through its accessors
/// `class_and_type`, `routing_context`, `affected_point_codes` and
/// `protocol_data`. The outcome is the named one.
#[verifier::external_body]
pub(crate) fn m3ua_decode(bytes: &[u8]) -> (r: Result<M3uaFrame, String>)
    ensures
        m3ua_outcome(r) == m3ua_decoded(bytes@),
{
    let m = ::m3ua::M3uaMessage::decode(bytes).map_err(|e| e.to_string())?;
    Ok(M3uaFrame {
        class: m.message_type.class_and_type().0,
        kind: m.message_type.class_and_type().1,
        name: m.message_type.to_string(),
        routing_context: m.routing_context(),
        affected: m.affected_point_codes(),
        data: m.protocol_data().map_err(|e| e.to_string()).map(|p| Msu { opc: p.opc, dpc: p.dpc, si: p.si, ni: p.ni, mp: p.mp, sls: p.sls, payload: p.user_data }),
    })
}

/// The octets of an M3UA DATA message.
pub uninterp spec fn m3ua_data_octets(m: MsuModel, routing_context: Option<u32>) -> Seq<u8>;

/// The longest payload an M3UA DATA message can carry: its length field has 16
/// bits and counts 16 octets of its own.
pub open spec fn m3ua_payload_limit() -> nat {
    65519
}

/// A decoded message is a DATA message (class 1, type 1) with this unit and
/// routing context.
pub open spec fn is_data_frame(
    d: Result<M3uaModel, Seq<char>>,
    m: MsuModel,
    routing_context: Option<u32>,
) -> bool {
    d matches Ok(f) && f.class == 1 && f.kind == 1 && f.routing_context == routing_context
        && f.data == Ok::<MsuModel, Seq<char>>(m)
}

/// Calls `m3ua::M3uaMessage::data` on a `ProtocolData` and `encode` on the
/// result. Beside the name the contract says that the octets decode to a DATA
/// message (class 1, type 1) with the same routing context and the same fields,
/// for a payload that the length field can count.
#[verifier::external_body]
pub(crate) fn m3ua_data(msu: &Msu, routing_context: Option<u32>) -> (r: Vec<u8>)
    ensures
        r@ == m3ua_data_octets(msu@, routing_context),
        msu.payload@.len() <= m3ua_payload_limit() ==> is_data_frame(
            m3ua_decoded(r@),
            msu@,
            routing_context,
        ),
{
    let data = ::m3ua::ProtocolData::new(msu.opc, msu.dpc, msu.si, msu.ni, msu.mp, msu.sls, msu.payload.clone());
    ::m3ua::M3uaMessage::data(None, routing_context, data, None).encode()
}

/// A control message of M3UA or SUA.
#[derive(Clone, Debug, PartialEq, Eq)]
pub enum Control {
    /// ASP Up with our identifier.
    AspUp { asp_id: u32 },
    /// ASP Up acknowledged.
    AspUpAck,
    /// ASP Down acknowledged.
    AspDownAck,
    /// ASP Active with traffic mode and routing context.
    AspActive { traffic_mode: u32, routing_context: u32 },
    /// ASP Active acknowledged.
    AspActiveAck { routing_context: Option<u32> },
    /// ASP Inactive acknowledged.
    AspInactiveAck { routing_context: Option<u32> },
    /// Heartbeat acknowledged.
    HeartbeatAck,
    /// Destinations available.
    Dava { routing_context: Option<u32>, affected: Vec<u32> },
    /// Destinations unavailable.
    Duna { routing_context: Option<u32>, affected: Vec<u32> },
}

/// What a [`Control`] message says.
pub enum ControlModel {
    AspUp { asp_id: u32 },
    AspUpAck,
    AspDownAck,
    AspActive { traffic_mode: u32, routing_context: u32 },
    AspActiveAck { routing_context: Option<u32> },
    AspInactiveAck { routing_context: Option<u32> },
    HeartbeatAck,
    Dava { routing_context: Option<u32>, affected: Seq<u32> },
    Duna { routing_context: Option<u32>, affected: Seq<u32> },
}

impl View for Control {
    type V = ControlModel;

    open spec fn view(&self) -> ControlModel {
        match *self {
            Control::AspUp { asp_id } => ControlModel::AspUp { asp_id },
            Control::AspUpAck => ControlModel::AspUpAck,
            Control::AspDownAck => ControlModel::AspDownAck,
            Control::AspActive { traffic_mode, routing_context } => ControlModel::AspActive {
                traffic_mode,
                routing_context,
            },
            Control::AspActiveAck { routing_context } => ControlModel::AspActiveAck {
                routing_context,
            },
            Control::AspInactiveAck { routing_context } => ControlModel::AspInactiveAck {
                routing_context,
            },
            Control::HeartbeatAck => ControlModel::HeartbeatAck,
            Control::Dava { routing_context, affected } => ControlModel::Dava {
                routing_context,
                affected: affected@,
            },
            Control::Duna { routing_context, affected } => ControlModel::Duna {
                routing_context,
                affected: affected@,
            },
        }
    }
}

impl ControlModel {
    /// The class and type numbers of the message (RFC 4666 and RFC 3868 agree).
    pub open spec fn class_and_kind(self) -> (u8, u8) {
        match self {
            ControlModel::AspUp { .. } => (3, 1),
            ControlModel::AspUpAck => (3, 4),
            ControlModel::AspDownAck => (3, 5),
            ControlModel::AspActive { .. } => (4, 1),
            ControlModel::AspActiveAck { .. } => (4, 3),
            ControlModel::AspInactiveAck { .. } => (4, 4),
            ControlModel::HeartbeatAck => (3, 6),
            ControlModel::Dava { .. } => (2, 2),
            ControlModel::Duna { .. } => (2, 1),
        }
    }
}

/// The octets of an M3UA control message.
pub uninterp spec fn m3ua_control_octets(c: ControlModel) -> Seq<u8>;

/// Calls the builder of `m3ua::M3uaMessage` for the message (`asp_up`,
/// `asp_up_ack`, `asp_down_ack`, `asp_active`, `asp_active_ack`,
/// `asp_inactive_ack`, `heartbeat_ack`, `dava`, `duna`) and `encode` on the
/// result. Beside the name the contract says that the octets, where they decode,
/// decode to a message of that type.
#[verifier::external_body]
fn m3ua_control_outside(c: Control) -> (r: Vec<u8>)
    ensures
        r@ == m3ua_control_octets(c@),
        m3ua_decoded(r@) matches Ok(f) ==> (f.class, f.kind) == c@.class_and_kind(),
{
    match c {
        Control::AspUp { asp_id } => ::m3ua::M3uaMessage::asp_up(Some(asp_id), None),
        Control::AspUpAck => ::m3ua::M3uaMessage::asp_up_ack(None),
        Control::AspDownAck => ::m3ua::M3uaMessage::asp_down_ack(None),
        Control::AspActive { traffic_mode, routing_context } => ::m3ua::M3uaMessage::asp_active(Some(traffic_mode), Some(routing_context)),
        Control::AspActiveAck { routing_context } => ::m3ua::M3uaMessage::asp_active_ack(None, routing_context),
        Control::AspInactiveAck { routing_context } => ::m3ua::M3uaMessage::asp_inactive_ack(routing_context),
        Control::HeartbeatAck => ::m3ua::M3uaMessage::heartbeat_ack(None),
        Control::Dava { routing_context, affected } => ::m3ua::M3uaMessage::dava(routing_context, affected),
        Control::Duna { routing_context, affected } => ::m3ua::M3uaMessage::duna(routing_context, affected),
    }
    .encode()
}

/// The octets of an M3UA control message.
pub fn m3ua_control(c: Control) -> (r: Vec<u8>)
    ensures
        r@ == m3ua_control_octets(c@),
        m3ua_decoded(r@) matches Ok(f) ==> (f.class, f.kind) == c@.class_and_kind(),
{
    m3ua_control_outside(c)
}

// ── M2PA ────────────────────────────────────────────────────────────────────

/// A decoded M2PA message.
#[derive(Clone, Debug, PartialEq, Eq)]
pub enum M2paFrame {
    /// User data: an MTP3 message signal unit, still encoded.
    UserData { bsn: u32, fsn: u32, msu: Vec<u8> },
    /// A link status, by its number.
    LinkStatus { bsn: u32, fsn: u32, state: u32 },
}

/// What an [`M2paFrame`] holds.
pub enum M2paModel {
    UserData { bsn: u32, fsn: u32, msu: Seq<u8> },
    LinkStatus { bsn: u32, fsn: u32, state: u32 },
}

impl View for M2paFrame {
    type V = M2paModel;

    open spec fn view(&self) -> M2paModel {
        match *self {
            M2paFrame::UserData { bsn, fsn, msu } => M2paModel::UserData { bsn, fsn, msu: msu@ },
            M2paFrame::LinkStatus { bsn, fsn, state } => M2paModel::LinkStatus { bsn, fsn, state },
        }
    }
}

/// The outcome of decoding an M2PA message.
pub open spec fn m2pa_outcome(r: Result<M2paFrame, String>) -> Result<M2paModel, Seq<char>> {
    match r {
        Ok(f) => Ok(f@),
        Err(e) => Err(e@),
    }
}

/// What `m2pa::M2paMessage::decode` makes of some octets.
pub uninterp spec fn m2pa_decoded(bytes: Seq<u8>) -> Result<M2paModel, Seq<char>>;

/// Calls `m2pa::M2paMessage::decode`. The outcome is the named one; a link status
/// carries one of the numbers 1 to 9.
#[verifier::external_body]
pub(crate) fn m2pa_decode(bytes: &[u8]) -> (r: Result<M2paFrame, String>)
    ensures
        m2pa_outcome(r) == m2pa_decoded(bytes@),
        r matches Ok(M2paFrame::LinkStatus { bsn, fsn, state }) ==> 1 <= state <= 9,
{
    match ::m2pa::M2paMessage::decode(bytes) {
        Ok(::m2pa::M2paMessage::UserData { bsn, fsn, message }) => Ok(M2paFrame::UserData { bsn, fsn, msu: message.msu }),
        Ok(::m2pa::M2paMessage::LinkStatus { bsn, fsn, message }) => Ok(M2paFrame::LinkStatus { bsn, fsn, state: message.state as u32 }),
        Err(e) => Err(e.to_string()),
    }
}

/// A decoded message is user data with these sequence numbers and this unit.
pub open spec fn is_user_data(
    d: Result<M2paModel, Seq<char>>,
    bsn: u32,
    fsn: u32,
    msu: Seq<u8>,
) -> bool {
    d == Ok::<M2paModel, Seq<char>>(M2paModel::UserData { bsn, fsn, msu })
}

/// A decoded message is this link status with these sequence numbers.
pub open spec fn is_link_status(
    d: Result<M2paModel, Seq<char>>,
    bsn: u32,
    fsn: u32,
    state: u32,
) -> bool {
    d == Ok::<M2paModel, Seq<char>>(M2paModel::LinkStatus { bsn, fsn, state })
}

/// The octets of a successful encoding.
pub open spec fn encoded(r: Result<Vec<u8>, String>) -> Option<Seq<u8>> {
    match r {
        Ok(v) => Some(v@),
        Err(_) => None,
    }
}

/// The octets of an M2PA user-data message with these sequence numbers.
pub uninterp spec fn m2pa_user_data_octets(bsn: u32, fsn: u32, priority: u8, msu: Seq<u8>) -> Seq<u8>;

/// Calls `m2pa::M2paMessage::encode` on a user-data message with these sequence
/// numbers, of 24 bits each. It does not fail. Beside the name the contract says
/// that a unit of at least one octet decodes to the same user data, and an empty one
/// to empty user data.
#[verifier::external_body]
pub(crate) fn m2pa_user_data(bsn: u32, fsn: u32, priority: u8, msu: Vec<u8>) -> (r: Result<Vec<u8>, String>)
    requires
        bsn <= 0xFF_FFFF,
        fsn <= 0xFF_FFFF,
    ensures
        encoded(r) == Some(m2pa_user_data_octets(bsn, fsn, priority, msu@)),
        r matches Ok(v) ==> is_user_data(m2pa_decoded(v@), bsn, fsn, msu@),
{
    let message = ::m2pa::UserDataMessage::new(priority, msu);
    ::m2pa::M2paMessage::UserData { bsn, fsn, message }.encode().map_err(|e| e.to_string())
}

/// The octets of an M2PA link-status message with these sequence numbers.
pub uninterp spec fn m2pa_status_octets(bsn: u32, fsn: u32, state: u32) -> Seq<u8>;

/// Calls `m2pa::LinkState::from_u32` and `m2pa::M2paMessage::encode` on a
/// link-status message with these sequence numbers, of 24 bits each. It does not
/// fail on the numbers 1 to 9, and the octets decode to the same status.
#[verifier::external_body]
pub(crate) fn m2pa_status(bsn: u32, fsn: u32, state: u32) -> (r: Result<Vec<u8>, String>)
    requires
        bsn <= 0xFF_FFFF,
        fsn <= 0xFF_FFFF,
        1 <= state <= 9,
    ensures
        encoded(r) == Some(m2pa_status_octets(bsn, fsn, state)),
        r matches Ok(v) ==> is_link_status(m2pa_decoded(v@), bsn, fsn, state),
{
    let state = ::m2pa::LinkState::from_u32(state).map_err(|e| e.to_string())?;
    let message = ::m2pa::LinkStatusMessage::new(state);
    ::m2pa::M2paMessage::LinkStatus { bsn, fsn, message }.encode().map_err(|e| e.to_string())
}

// ── The ITU routing label ───────────────────────────────────────────────────

/// The service information octet: service indicator in the low four bits, then
/// two bits of priority, then two bits of network indicator.
pub open spec fn sio(m: MsuModel) -> int {
    (m.ni as int % 4) * 64 + (m.mp as int % 4) * 16 + m.si as int % 16
}

/// The routing label as a 32-bit number: 14 bits of destination, 14 of origin,
/// 4 of link selection.
pub open spec fn label(m: MsuModel) -> int {
    m.dpc + m.opc * 0x4000 + (m.sls as int % 16) * 0x1000_0000
}

/// The octets of an ITU message signal unit: the service information octet, the
/// label with its least significant octet first, and the payload.
#[verifier::opaque]
pub open spec fn itu_octets(m: MsuModel) -> Seq<u8> {
    seq![
        sio(m) as u8,
        (label(m) % 256) as u8,
        (label(m) / 256 % 256) as u8,
        (label(m) / 65536 % 256) as u8,
        (label(m) / 16777216) as u8,
    ] + m.payload
}

/// The unit that some octets hold under the ITU layout, or the error text if they
/// are too short for a label.
#[verifier::opaque]
pub open spec fn itu_unit(bytes: Seq<u8>) -> Result<MsuModel, Seq<char>> {
    if bytes.len() < 5 {
        Err(
            "MSU decode: need at least 5 octets for the SIO + Itu routing label, got "@ + decimal(
                bytes.len(),
            ),
        )
    } else {
        let label = bytes[1] + bytes[2] * 256 + bytes[3] * 65536 + bytes[4] * 16777216;
        Ok(
            MsuModel {
                opc: (label / 0x4000 % 0x4000) as u32,
                dpc: (label % 0x4000) as u32,
                si: (bytes[0] % 16) as u8,
                ni: (bytes[0] / 64) as u8,
                mp: (bytes[0] / 16 % 4) as u8,
                sls: (label / 0x1000_0000) as u8,
                payload: bytes.subrange(5, bytes.len() as int),
            },
        )
    }
}

/// The octets of an optional vector.
pub open spec fn some_octets(o: Option<Vec<u8>>) -> Option<Seq<u8>> {
    match o {
        Some(v) => Some(v@),
        None => None,
    }
}

/// Calls `mtp3::Mtp3Msu::encode` under the ITU variant, on point codes made by
/// `mtp3::PointCode::from_value`. For point codes of 14 bits the result is the
/// Q.704 layout.
#[verifier::external_body]
pub(crate) fn itu_encode(msu: &Msu) -> (r: Option<Vec<u8>>)
    requires
        msu.opc <= 0x3FFF,
        msu.dpc <= 0x3FFF,
    ensures
        some_octets(r) == Some(itu_octets(msu@)),
{
    let itu = ::mtp3::Variant::Itu;
    let opc = ::mtp3::PointCode::from_value(msu.opc, itu).ok()?;
    let dpc = ::mtp3::PointCode::from_value(msu.dpc, itu).ok()?;
    let ni = ::mtp3::NetworkIndicator::from_bits(msu.ni);
    Some(::mtp3::Mtp3Msu { si: ::mtp3::ServiceIndicator(msu.si), ni, mp: msu.mp, opc, dpc, sls: msu.sls, data: msu.payload.clone() }.encode(itu))
}

/// The outcome of decoding a message signal unit.
pub open spec fn unit_outcome(r: Result<Msu, String>) -> Result<MsuModel, Seq<char>> {
    match r {
        Ok(m) => Ok(m@),
        Err(e) => Err(e@),
    }
}

/// Calls `mtp3::Mtp3Msu::decode` under the ITU variant. The result is read off
/// the Q.704 layout; fewer than five octets are refused.
#[verifier::external_body]
pub(crate) fn itu_decode(bytes: &[u8]) -> (r: Result<Msu, String>)
    ensures
        unit_outcome(r) == itu_unit(bytes@),
{
    match ::mtp3::Mtp3Msu::decode(bytes, ::mtp3::Variant::Itu) {
        Ok(m) => Ok(Msu { opc: m.opc.value(), dpc: m.dpc.value(), si: m.si.0, ni: m.ni.bits(), mp: m.mp, sls: m.sls, payload: m.data }),
        Err(e) => Err(e.to_string()),
    }
}

// ── SUA ─────────────────────────────────────────────────────────────────────

/// A SUA global title.
#[derive(Clone, Debug, PartialEq, Eq)]
pub struct SuaTitle {
    pub gti: u8,
    pub translation_type: u8,
    pub numbering_plan: u8,
    pub nature_of_address: u8,
    pub digits: String,
}

/// What a [`SuaTitle`] holds.
pub struct SuaTitleModel {
    pub gti: u8,
    pub translation_type: u8,
    pub numbering_plan: u8,
    pub nature_of_address: u8,
    pub digits: Seq<char>,
}

impl View for SuaTitle {
    type V = SuaTitleModel;

    open spec fn view(&self) -> SuaTitleModel {
        SuaTitleModel {
            gti: self.gti,
            translation_type: self.translation_type,
            numbering_plan: self.numbering_plan,
            nature_of_address: self.nature_of_address,
            digits: self.digits@,
        }
    }
}

/// A SUA source or destination address.
#[derive(Clone, Debug, PartialEq, Eq)]
pub struct SuaParty {
    /// The routing indicator: 1 for global title, 2 for subsystem and point code,
    /// 3 for host name, 4 for subsystem and IP address.
    pub routing: u16,
    /// Whether an interworking node copies the global title.
    pub include_gt: bool,
    /// Whether an interworking node copies the point code.
    pub include_pc: bool,
    /// Whether an interworking node copies the subsystem number.
    pub include_ssn: bool,
    pub title: Option<SuaTitle>,
    pub point_code: Option<u32>,
    pub ssn: Option<u8>,
}

/// What a [`SuaParty`] holds.
pub struct SuaPartyModel {
    pub routing: u16,
    pub include_gt: bool,
    pub include_pc: bool,
    pub include_ssn: bool,
    pub title: Option<SuaTitleModel>,
    pub point_code: Option<u32>,
    pub ssn: Option<u8>,
}

impl View for SuaParty {
    type V = SuaPartyModel;

    open spec fn view(&self) -> SuaPartyModel {
        SuaPartyModel {
            routing: self.routing,
            include_gt: self.include_gt,
            include_pc: self.include_pc,
            include_ssn: self.include_ssn,
            title: match self.title {
                Some(t) => Some(t@),
                None => None,
            },
            point_code: self.point_code,
            ssn: self.ssn,
        }
    }
}

/// The outcome of reading an address.
pub open spec fn party_outcome(r: Result<SuaParty, String>) -> Result<SuaPartyModel, Seq<char>> {
    match r {
        Ok(a) => Ok(a@),
        Err(e) => Err(e@),
    }
}

/// A decoded SUA message: its class and type numbers, the name of its type, and
/// the parameters the transport reads.
#[derive(Debug)]
pub struct SuaFrame {
    pub class: u8,
    pub kind: u8,
    pub name: String,
    pub routing_context: Option<u32>,
    pub affected: Vec<u32>,
    pub protocol_class: Option<u8>,
    pub sequence_control: Option<u32>,
    pub hop_count: Option<u8>,
    pub cause: Option<(u8, u8)>,
    pub data: Option<Vec<u8>>,
    /// The source address, or why there is none.
    pub source: Result<SuaParty, String>,
    /// The destination address, or why there is none.
    pub destination: Result<SuaParty, String>,
}

/// What a [`SuaFrame`] holds.
pub struct SuaModel {
    pub class: u8,
    pub kind: u8,
    pub name: Seq<char>,
    pub routing_context: Option<u32>,
    pub affected: Seq<u32>,
    pub protocol_class: Option<u8>,
    pub sequence_control: Option<u32>,
    pub hop_count: Option<u8>,
    pub cause: Option<(u8, u8)>,
    pub data: Option<Seq<u8>>,
    pub source: Result<SuaPartyModel, Seq<char>>,
    pub destination: Result<SuaPartyModel, Seq<char>>,
}

impl View for SuaFrame {
    type V = SuaModel;

    open spec fn view(&self) -> SuaModel {
        SuaModel {
            class: self.class,
            kind: self.kind,
            name: self.name@,
            routing_context: self.routing_context,
            affected: self.affected@,
            protocol_class: self.protocol_class,
            sequence_control: self.sequence_control,
            hop_count: self.hop_count,
            cause: self.cause,
            data: match self.data {
                Some(v) => Some(v@),
                None => None,
            },
            source: party_outcome(self.source),
            destination: party_outcome(self.destination),
        }
    }
}

/// The outcome of decoding a SUA message.
pub open spec fn sua_outcome(r: Result<SuaFrame, String>) -> Result<SuaModel, Seq<char>> {
    match r {
        Ok(f) => Ok(f@),
        Err(e) => Err(e@),
    }
}

/// `sua::SuaAddress`.
#[verifier::external_type_specification]
#[verifier::external_body]
pub struct ExSuaAddress(::sua::SuaAddress);

/// Moves the fields of a `sua::SuaAddress`. Sub-parameters other than title, point
/// code and subsystem number are left behind.
#[verifier::external_body]
fn party_in(a: ::sua::SuaAddress) -> SuaParty {
    SuaParty {
        routing: a.routing_indicator.value(),
        include_gt: a.include_gt,
        include_pc: a.include_pc,
        include_ssn: a.include_ssn,
        title: a.global_title.map(|g| SuaTitle { gti: g.gti, translation_type: g.translation_type, numbering_plan: g.numbering_plan, nature_of_address: g.nature_of_address, digits: g.digits }),
        point_code: a.point_code,
        ssn: a.ssn,
    }
}

/// Moves the fields into a `sua::SuaAddress`; the routing indicator goes through
/// `sua::RoutingIndicator::from_u16`.
#[verifier::external_body]
fn party_out(a: &SuaParty) -> Result<::sua::SuaAddress, String> {
    let routing_indicator = ::sua::RoutingIndicator::from_u16(a.routing).map_err(|e| e.to_string())?;
    Ok(::sua::SuaAddress {
        routing_indicator,
        include_gt: a.include_gt,
        include_pc: a.include_pc,
        include_ssn: a.include_ssn,
        global_title: a.title.clone().map(|g| ::sua::GlobalTitle { gti: g.gti, translation_type: g.translation_type, numbering_plan: g.numbering_plan, nature_of_address: g.nature_of_address, digits: g.digits }),
        point_code: a.point_code,
        ssn: a.ssn,
        other: Vec::new(),
    })
}

/// What `sua::SuaMessage::decode` and the accessors of the message make of some
/// octets.
pub uninterp spec fn sua_decoded(bytes: Seq<u8>) -> Result<SuaModel, Seq<char>>;

/// Calls `sua::SuaMessage::decode` and reads the message through its accessors.
/// The outcome is the named one.
#[verifier::external_body]
pub(crate) fn sua_decode(bytes: &[u8]) -> (r: Result<SuaFrame, String>)
    ensures
        sua_outcome(r) == sua_decoded(bytes@),
{
    let m = ::sua::SuaMessage::decode(bytes).map_err(|e| e.to_string())?;
    let (class, kind) = m.message_type.class_and_type();
    Ok(SuaFrame {
        class, kind, name: m.message_type.to_string(),
        routing_context: m.routing_context(), affected: m.affected_point_codes(),
        protocol_class: m.protocol_class(), sequence_control: m.sequence_control(),
        hop_count: m.ss7_hop_count(), cause: m.sccp_cause(),
        data: m.data().map(|d| d.to_vec()),
        source: m.source_address().map(party_in).map_err(|e| e.to_string()),
        destination: m.destination_address().map(party_in).map_err(|e| e.to_string()),
    })
}

/// SUA can write the address: its routing indicator is a known one, and the digits of
/// its title are address signals.
pub open spec fn sua_writes(a: SuaPartyModel) -> bool {
    a.routing <= 4 && (a.title matches Some(t) ==> are_signals(t.digits))
}

/// SUA can write both addresses.
pub open spec fn sua_writes_both(source: SuaPartyModel, destination: SuaPartyModel) -> bool {
    sua_writes(source) && sua_writes(destination)
}

/// SUA gives the address back as it was: there are at most 255 digits, as many as the
/// octet that counts them can say, and no letter among them is a capital.
pub open spec fn sua_keeps(a: SuaPartyModel) -> bool {
    &&& sua_writes(a)
    &&& a.title matches Some(t) ==> t.digits.len() <= 255 && forall|i: int|
        0 <= i < t.digits.len() ==> !('A' <= #[trigger] t.digits[i] <= 'C')
}

/// The most octets that the length field of a SUA parameter can count.
pub open spec fn sua_data_limit() -> nat {
    65531
}

/// Both addresses read back, and the length field can count the data.
pub open spec fn sua_carries(source: SuaPartyModel, destination: SuaPartyModel, data: Seq<u8>) -> bool {
    sua_keeps(source) && sua_keeps(destination) && data.len() <= sua_data_limit()
}

/// A decoded message is this one.
pub open spec fn is_sua(d: Result<SuaModel, Seq<char>>, m: SuaModel) -> bool {
    d == Ok::<SuaModel, Seq<char>>(m)
}

/// The CLDT of these values, as it is read.
pub open spec fn cldt_model(
    routing_context: u32,
    protocol_class: u8,
    source: SuaPartyModel,
    destination: SuaPartyModel,
    sequence: u32,
    hop_count: Option<u8>,
    data: Seq<u8>,
) -> SuaModel {
    SuaModel {
        class: 7,
        kind: 1,
        name: "CLDT"@,
        routing_context: Some(routing_context),
        affected: Seq::empty(),
        protocol_class: Some(protocol_class),
        sequence_control: Some(sequence),
        hop_count,
        cause: None,
        data: Some(data),
        source: Ok(source),
        destination: Ok(destination),
    }
}

/// The CLDR of these values, as it is read.
pub open spec fn cldr_model(
    routing_context: u32,
    cause: (u8, u8),
    source: SuaPartyModel,
    destination: SuaPartyModel,
    data: Seq<u8>,
) -> SuaModel {
    SuaModel {
        class: 7,
        kind: 2,
        name: "CLDR"@,
        routing_context: Some(routing_context),
        affected: Seq::empty(),
        protocol_class: None,
        sequence_control: None,
        hop_count: None,
        cause: Some(cause),
        data: Some(data),
        source: Ok(source),
        destination: Ok(destination),
    }
}

/// What `sua::SuaMessage::cldt` and `encode` make of these values.
pub uninterp spec fn cldt_octets(
    routing_context: u32,
    protocol_class: u8,
    source: SuaPartyModel,
    destination: SuaPartyModel,
    sequence: u32,
    hop_count: Option<u8>,
    data: Seq<u8>,
) -> Result<Seq<u8>, Seq<char>>;

/// The outcome of encoding.
pub open spec fn sua_octets_outcome(r: Result<Vec<u8>, String>) -> Result<Seq<u8>, Seq<char>> {
    match r {
        Ok(v) => Ok(v@),
        Err(e) => Err(e@),
    }
}

/// Calls `sua::SuaMessage::cldt` and `encode`. Beside the name the contract says
/// that it fails exactly if an address cannot be written, that the octets, where they
/// decode, decode to a CLDT (class 7, type 1) with this routing context, and that they
/// decode to all of these values if both addresses read back and the length field can
/// count the data.
#[verifier::external_body]
pub(crate) fn sua_cldt(routing_context: u32, protocol_class: u8, source: &SuaParty, destination: &SuaParty, sequence: u32, hop_count: Option<u8>, data: Vec<u8>) -> (r: Result<Vec<u8>, String>)
    ensures
        sua_octets_outcome(r) == cldt_octets(
            routing_context,
            protocol_class,
            source@,
            destination@,
            sequence,
            hop_count,
            data@,
        ),
        r is Ok <==> sua_writes_both(source@, destination@),
        r matches Ok(v) ==> (sua_decoded(v@) matches Ok(f) ==> f.class == 7 && f.kind == 1
            && f.routing_context == Some(routing_context)),
        r matches Ok(v) ==> (sua_carries(source@, destination@, data@) ==> is_sua(
            sua_decoded(v@),
            cldt_model(
                routing_context,
                protocol_class,
                source@,
                destination@,
                sequence,
                hop_count,
                data@,
            ),
        )),
{
    let (source, destination) = (party_out(source)?, party_out(destination)?);
    let m = ::sua::SuaMessage::cldt(routing_context, protocol_class, &source, &destination, sequence, hop_count, data);
    m.map(|m| m.encode()).map_err(|e| e.to_string())
}

/// What `sua::SuaMessage::cldr` and `encode` make of these values.
pub uninterp spec fn cldr_octets(
    routing_context: u32,
    cause_type: u8,
    cause: u8,
    source: SuaPartyModel,
    destination: SuaPartyModel,
    data: Seq<u8>,
) -> Result<Seq<u8>, Seq<char>>;

/// Calls `sua::SuaMessage::cldr` and `encode`. Beside the name the contract says
/// that it fails exactly if an address cannot be written, that the octets, where they
/// decode, decode to a CLDR (class 7, type 2) with this routing context, and that they
/// decode to all of these values if both addresses read back and the length field can
/// count the data.
#[verifier::external_body]
pub(crate) fn sua_cldr(routing_context: u32, cause_type: u8, cause: u8, source: &SuaParty, destination: &SuaParty, data: Vec<u8>) -> (r: Result<Vec<u8>, String>)
    ensures
        sua_octets_outcome(r) == cldr_octets(
            routing_context,
            cause_type,
            cause,
            source@,
            destination@,
            data@,
        ),
        r is Ok <==> sua_writes_both(source@, destination@),
        r matches Ok(v) ==> (sua_decoded(v@) matches Ok(f) ==> f.class == 7 && f.kind == 2
            && f.routing_context == Some(routing_context)),
        r matches Ok(v) ==> (sua_carries(source@, destination@, data@) ==> is_sua(
            sua_decoded(v@),
            cldr_model(routing_context, (cause_type, cause), source@, destination@, data@),
        )),
{
    let (source, destination) = (party_out(source)?, party_out(destination)?);
    let m = ::sua::SuaMessage::cldr(routing_context, cause_type, cause, &source, &destination, Some(data));
    m.map(|m| m.encode()).map_err(|e| e.to_string())
}

/// The octets of a SUA control message.
pub uninterp spec fn sua_control_octets(c: ControlModel) -> Seq<u8>;

/// Calls the builder of `sua::SuaMessage` for the message and `encode` on the
/// result. Beside the name the contract says that the octets, where they decode,
/// decode to a message of that type.
#[verifier::external_body]
fn sua_control_outside(c: Control) -> (r: Vec<u8>)
    ensures
        r@ == sua_control_octets(c@),
        sua_decoded(r@) matches Ok(f) ==> (f.class, f.kind) == c@.class_and_kind(),
{
    match c {
        Control::AspUp { asp_id } => ::sua::SuaMessage::asp_up(Some(asp_id), None),
        Control::AspUpAck => ::sua::SuaMessage::asp_up_ack(None),
        Control::AspDownAck => ::sua::SuaMessage::asp_down_ack(None),
        Control::AspActive { traffic_mode, routing_context } => ::sua::SuaMessage::asp_active(Some(traffic_mode), Some(routing_context)),
        Control::AspActiveAck { routing_context } => ::sua::SuaMessage::asp_active_ack(None, routing_context),
        Control::AspInactiveAck { routing_context } => ::sua::SuaMessage::asp_inactive_ack(routing_context),
        Control::HeartbeatAck => ::sua::SuaMessage::heartbeat_ack(None),
        Control::Dava { routing_context, affected } => ::sua::SuaMessage::dava(routing_context, &affected),
        Control::Duna { routing_context, affected } => ::sua::SuaMessage::duna(routing_context, &affected),
    }
    .encode()
}

/// The octets of a SUA control message.
pub fn sua_control(c: Control) -> (r: Vec<u8>)
    ensures
        r@ == sua_control_octets(c@),
        sua_decoded(r@) matches Ok(f) ==> (f.class, f.kind) == c@.class_and_kind(),
{
    sua_control_outside(c)
}

} // verus!
