//! Message framing: the boundary between an SCTP payload and the MTP3 routing
//! layer.
//!
//! Inbound, the routing label and the payload come out of an M3UA DATA message,
//! an M2PA User Data message or a SUA connectionless message. Outbound, a unit is
//! wrapped for its transport again. M3UA carries 32-bit point codes; M2PA is
//! framed under the ITU layout, with 14-bit point codes. SUA carries the SCCP user
//! alone, so its messages are bridged to the equivalent SCCP message.
use crate::sccp::message::{
    sccp_decoded, sccp_encoded, AddressModel, MessageModel, PartyAddress, PartyTitle, SccpForm,
    SccpHead, TitleModel, Unitdata,
};
use crate::text::{decimal, decimal_of, join2};
use crate::transport::msu::{
    copy_octets, frame_outcome, maybe_msu_outcome, msu_outcome, Msu, MsuModel, TransportError,
    TransportFault,
};
use crate::transport::wire::{
    cldr_model, cldr_octets, cldt_model, cldt_octets, is_data_frame, is_sua, is_user_data,
    itu_decode, itu_encode, itu_octets, itu_unit, label, m2pa_decode, m2pa_decoded, m2pa_outcome,
    m2pa_user_data, m2pa_user_data_octets, m3ua_data, m3ua_data_octets, m3ua_decode, m3ua_decoded,
    m3ua_outcome, m3ua_payload_limit, sio, some_octets, sua_carries, sua_cldr, sua_cldt,
    sua_decode, sua_decoded, sua_octets_outcome, sua_outcome, sua_writes_both, M2paFrame,
    M2paModel, M3uaFrame, M3uaModel, SuaFrame, SuaModel, SuaParty, SuaPartyModel, SuaTitle,
    SuaTitleModel,
};
use vstd::prelude::*;
use vstd::string::*;

verus! {

/// The service indicator of SCCP.
pub const SI_SCCP: u8 = 3;

/// The service indicator of ISUP.
pub const SI_ISUP: u8 = 5;

/// The M2PA sequence number of a link that has sent nothing.
pub const IDLE_SEQUENCE: u32 = 0xFF_FFFF;

/// The SUA cause type of an SCCP return cause.
pub const RETURN_CAUSE: u8 = 0;

/// The SCTP payload protocol identifier of SUA.
pub const PPID_SUA: u32 = 4;

// ── M3UA ────────────────────────────────────────────────────────────────────

/// The unit in a decoded M3UA message. Only a DATA message holds one.
pub open spec fn unit_of_m3ua(d: Result<M3uaModel, Seq<char>>) -> Result<MsuModel, TransportFault> {
    match d {
        Err(e) => Err(TransportFault::M3ua(e)),
        Ok(f) => if f.class == 1 && f.kind == 1 {
            match f.data {
                Ok(m) => Ok(m),
                Err(e) => Err(TransportFault::M3ua(e)),
            }
        } else {
            Err(TransportFault::Framing("expected M3UA DATA, got "@ + f.name))
        },
    }
}

/// The unit in a decoded M3UA message.
pub fn msu_of_m3ua(frame: Result<M3uaFrame, String>) -> (r: Result<Msu, TransportError>)
    ensures
        msu_outcome(r) == unit_of_m3ua(m3ua_outcome(frame)),
{
    match frame {
        Err(e) => Err(TransportError::M3ua(e)),
        Ok(f) => {
            if f.class == 1 && f.kind == 1 {
                match f.data {
                    Ok(m) => Ok(m),
                    Err(e) => Err(TransportError::M3ua(e)),
                }
            } else {
                Err(TransportError::Framing(join2("expected M3UA DATA, got ", f.name.as_str())))
            }
        },
    }
}

/// Extracts the unit from an M3UA DATA message. Any other message is an error.
pub fn extract_m3ua(payload: &[u8]) -> (r: Result<Msu, TransportError>)
    ensures
        msu_outcome(r) == unit_of_m3ua(m3ua_decoded(payload@)),
{
    msu_of_m3ua(m3ua_decode(payload))
}

/// Wraps a unit in an M3UA DATA message with an optional routing context. For a
/// payload that the length field can count, the message decodes to that unit under
/// that context, and [`extract_m3ua`] gives the unit back.
pub fn wrap_m3ua(msu: &Msu, routing_context: Option<u32>) -> (r: Vec<u8>)
    ensures
        r@ == m3ua_data_octets(msu@, routing_context),
        msu.payload@.len() <= m3ua_payload_limit() ==> is_data_frame(
            m3ua_decoded(r@),
            msu@,
            routing_context,
        ),
        msu.payload@.len() <= m3ua_payload_limit() ==> unit_of_m3ua(m3ua_decoded(r@)) == Ok::<
            MsuModel,
            TransportFault,
        >(msu@),
{
    m3ua_data(msu, routing_context)
}

// ── M2PA ────────────────────────────────────────────────────────────────────

/// The unit in a decoded M2PA message: none in a link status.
pub open spec fn unit_of_m2pa(d: Result<M2paModel, Seq<char>>) -> Result<
    Option<MsuModel>,
    TransportFault,
> {
    match d {
        Err(e) => Err(TransportFault::M2pa(e)),
        Ok(M2paModel::LinkStatus { .. }) => Ok(None),
        Ok(M2paModel::UserData { msu, .. }) => match itu_unit(msu) {
            Ok(m) => Ok(Some(m)),
            Err(e) => Err(TransportFault::Framing(e)),
        },
    }
}

/// The unit in a decoded M2PA message: none in a link status.
pub fn msu_of_m2pa(frame: Result<M2paFrame, String>) -> (r: Result<Option<Msu>, TransportError>)
    ensures
        maybe_msu_outcome(r) == unit_of_m2pa(m2pa_outcome(frame)),
{
    match frame {
        Err(e) => Err(TransportError::M2pa(e)),
        Ok(M2paFrame::LinkStatus { .. }) => Ok(None),
        Ok(M2paFrame::UserData { msu, .. }) => match itu_decode(msu.as_slice()) {
            Ok(m) => Ok(Some(m)),
            Err(e) => Err(TransportError::Framing(e)),
        },
    }
}

/// Extracts the unit from an M2PA User Data message, under the ITU layout. A link
/// status gives `None`.
pub fn extract_m2pa(payload: &[u8]) -> (r: Result<Option<Msu>, TransportError>)
    ensures
        maybe_msu_outcome(r) == unit_of_m2pa(m2pa_decoded(payload@)),
{
    msu_of_m2pa(m2pa_decode(payload))
}

/// The unit with both point codes cut to 14 bits, as the ITU label carries them.
pub open spec fn itu_masked(m: MsuModel) -> MsuModel {
    MsuModel { opc: (m.opc % 0x4000) as u32, dpc: (m.dpc % 0x4000) as u32, ..m }
}

/// The unit with every label field cut to what the ITU label carries.
pub open spec fn itu_carried(m: MsuModel) -> MsuModel {
    MsuModel {
        si: (m.si % 16) as u8,
        ni: (m.ni % 4) as u8,
        mp: (m.mp % 4) as u8,
        sls: (m.sls % 16) as u8,
        ..itu_masked(m)
    }
}

/// Every label field fits the ITU label.
pub open spec fn fits_itu(m: MsuModel) -> bool {
    m.opc < 0x4000 && m.dpc < 0x4000 && m.si < 16 && m.ni < 4 && m.mp < 4 && m.sls < 16
}

/// The M2PA message that carries a unit.
pub open spec fn m2pa_frame(m: MsuModel) -> Seq<u8> {
    m2pa_user_data_octets(IDLE_SEQUENCE, IDLE_SEQUENCE, m.mp, itu_octets(itu_masked(m)))
}

/// A point code wider than 14 bits is cut, never refused: a unit and the same unit
/// with both point codes masked go out as the same octets.
pub proof fn law_m2pa_masks_point_codes(m: MsuModel)
    ensures
        m2pa_frame(MsuModel { opc: m.opc & 0x3FFF, dpc: m.dpc & 0x3FFF, ..m }) == m2pa_frame(m),
{
    let (o, d) = (m.opc, m.dpc);
    assert(o & 0x3FFF == o % 0x4000) by (bit_vector);
    assert(d & 0x3FFF == d % 0x4000) by (bit_vector);
    let cut = MsuModel { opc: m.opc & 0x3FFF, dpc: m.dpc & 0x3FFF, ..m };
    assert(itu_masked(cut) == itu_masked(m));
}

/// Wraps a unit in an M2PA User Data message under the ITU layout, with both
/// point codes cut to 14 bits and both sequence numbers idle. It does not fail, and [`extract_m2pa`] gives back
/// the unit with each label field cut to its width.
pub fn wrap_m2pa(msu: &Msu) -> (r: Result<Vec<u8>, TransportError>)
    ensures
        frame_outcome(r) == Ok::<Seq<u8>, TransportFault>(m2pa_frame(msu@)),
        r matches Ok(v) ==> is_user_data(
            m2pa_decoded(v@),
            IDLE_SEQUENCE,
            IDLE_SEQUENCE,
            itu_octets(itu_masked(msu@)),
        ),
        r matches Ok(v) ==> unit_of_m2pa(m2pa_decoded(v@)) == Ok::<
            Option<MsuModel>,
            TransportFault,
        >(Some(itu_carried(msu@))),
{
    let cut = Msu {
        opc: msu.opc % 0x4000,
        dpc: msu.dpc % 0x4000,
        si: msu.si,
        ni: msu.ni,
        mp: msu.mp,
        sls: msu.sls,
        payload: copy_octets(&msu.payload),
    };
    proof {
        assert(cut@ == itu_masked(msu@));
        itu_round_trip(cut@);
        assert(itu_carried(cut@) == itu_carried(msu@));
    }
    match itu_encode(&cut) {
        Some(raw) => match m2pa_user_data(IDLE_SEQUENCE, IDLE_SEQUENCE, msu.mp, raw) {
            Ok(v) => Ok(v),
            Err(e) => Err(TransportError::M2pa(e)),
        },
        None => Err(TransportError::Framing("point code".to_owned())),
    }
}

/// The three fields of a routing label.
proof fn label_fields(dpc: int, opc: int, sls: int)
    requires
        0 <= dpc < 0x4000,
        0 <= opc < 0x4000,
        0 <= sls < 16,
    ensures
        ({
            let l = dpc + opc * 0x4000 + sls * 0x1000_0000;
            &&& 0 <= l < 0x1_0000_0000
            &&& l % 0x4000 == dpc
            &&& l / 0x4000 % 0x4000 == opc
            &&& l / 0x1000_0000 == sls
        }),
{
    let l = dpc + opc * 0x4000 + sls * 0x1000_0000;
    let q = opc + sls * 0x4000;
    vstd::arithmetic::div_mod::lemma_fundamental_div_mod_converse(l, 0x4000, q, dpc);
    vstd::arithmetic::div_mod::lemma_fundamental_div_mod_converse(q, 0x4000, sls, opc);
    vstd::arithmetic::div_mod::lemma_fundamental_div_mod_converse(
        l,
        0x1000_0000,
        sls,
        dpc + opc * 0x4000,
    );
}

/// A number of 32 bits is put together from its four octets.
proof fn four_octets(l: int)
    requires
        0 <= l < 0x1_0000_0000,
    ensures
        l % 256 + (l / 256 % 256) * 256 + (l / 65536 % 256) * 65536 + (l / 16777216) * 16777216 == l,
        0 <= l / 16777216 < 256,
{
    vstd::arithmetic::div_mod::lemma_div_denominator(l, 256, 256);
    vstd::arithmetic::div_mod::lemma_div_denominator(l, 65536, 256);
    vstd::arithmetic::div_mod::lemma_fundamental_div_mod(l, 256);
    vstd::arithmetic::div_mod::lemma_fundamental_div_mod(l / 256, 256);
    vstd::arithmetic::div_mod::lemma_fundamental_div_mod(l / 65536, 256);
}

/// The three fields of a service information octet.
proof fn sio_fields(si: int, mp: int, ni: int)
    requires
        0 <= si < 16,
        0 <= mp < 4,
        0 <= ni < 4,
    ensures
        ({
            let s = ni * 64 + mp * 16 + si;
            0 <= s < 256 && s % 16 == si && s / 16 % 4 == mp && s / 64 == ni
        }),
{
}

/// The leading octets of the ITU layout, as numbers.
proof fn label_octets(m: MsuModel)
    requires
        m.opc < 0x4000,
        m.dpc < 0x4000,
    ensures
        itu_octets(m).len() == 5 + m.payload.len(),
        itu_octets(m)[0] == sio(m),
        itu_octets(m)[1] == label(m) % 256,
        itu_octets(m)[2] == label(m) / 256 % 256,
        itu_octets(m)[3] == label(m) / 65536 % 256,
        itu_octets(m)[4] == label(m) / 16777216,
        itu_octets(m).subrange(5, itu_octets(m).len() as int) == m.payload,
{
    reveal(itu_octets);
    label_fields(m.dpc as int, m.opc as int, m.sls as int % 16);
    four_octets(label(m));
    sio_fields(m.si as int % 16, m.mp as int % 4, m.ni as int % 4);
    assert(itu_octets(m).subrange(5, itu_octets(m).len() as int) =~= m.payload);
}

/// Reading back the ITU layout gives each label field cut to its width.
#[verifier::spinoff_prover]
#[verifier::rlimit(60)]
pub proof fn itu_round_trip(m: MsuModel)
    requires
        m.opc < 0x4000,
        m.dpc < 0x4000,
    ensures
        itu_unit(itu_octets(m)) == Ok::<MsuModel, Seq<char>>(itu_carried(m)),
        itu_octets(m).len() > 0,
{
    reveal(itu_unit);
    let b = itu_octets(m);
    let l = label(m);
    label_fields(m.dpc as int, m.opc as int, m.sls as int % 16);
    four_octets(l);
    sio_fields(m.si as int % 16, m.mp as int % 4, m.ni as int % 4);
    label_octets(m);
    let read = b[1] + b[2] * 256 + b[3] * 65536 + b[4] * 16777216;
    assert(read == l);
    assert(read % 0x4000 == m.dpc);
    assert(read / 0x4000 % 0x4000 == m.opc);
    assert(read / 0x1000_0000 == m.sls as int % 16);
    assert(b[0] % 16 == m.si as int % 16);
    assert(b[0] / 16 % 4 == m.mp as int % 4);
    assert(b[0] / 64 == m.ni as int % 4);
}

/// A unit whose label fits the ITU layout comes back from the M2PA path unchanged.
pub proof fn law_itu_keeps_what_fits(m: MsuModel)
    requires
        fits_itu(m),
    ensures
        itu_carried(m) == m,
{
}

/// The service indicator survives the M2PA path whatever it is, as long as it has
/// four bits.
pub proof fn law_service_indicator_survives(m: MsuModel)
    requires
        m.si < 16,
    ensures
        itu_carried(m).si == m.si,
        itu_carried(m).payload == m.payload,
{
}

// ── SUA ─────────────────────────────────────────────────────────────────────

/// The encoding scheme of a digit string by its parity: 1 for odd, 2 for even.
pub open spec fn parity_scheme(digits: Seq<char>) -> u8 {
    if digits.len() % 2 == 1 {
        1
    } else {
        2
    }
}

/// The SCCP global title of a SUA one. SUA carries no encoding scheme, so it is
/// taken from the parity of the digits.
pub open spec fn sccp_title(t: SuaTitleModel) -> TitleModel {
    if t.gti == 1 {
        TitleModel::Gt0001 {
            nature_of_address: t.nature_of_address,
            odd_even: t.digits.len() % 2 == 1,
            digits: t.digits,
        }
    } else if t.gti == 2 {
        TitleModel::Gt0010 { translation_type: t.translation_type, digits: t.digits }
    } else if t.gti == 3 {
        TitleModel::Gt0011 {
            translation_type: t.translation_type,
            numbering_plan: t.numbering_plan,
            encoding_scheme: parity_scheme(t.digits),
            digits: t.digits,
        }
    } else {
        TitleModel::Gt0100 {
            translation_type: t.translation_type,
            numbering_plan: t.numbering_plan,
            encoding_scheme: parity_scheme(t.digits),
            nature_of_address: t.nature_of_address,
            digits: t.digits,
        }
    }
}

/// The low 16 bits of an optional point code.
pub open spec fn short_code(pc: Option<u32>) -> Option<u16> {
    match pc {
        Some(p) => Some((p % 0x1_0000) as u16),
        None => None,
    }
}

/// The SCCP address of a SUA one: by global title if there is one, else by
/// subsystem number, 0 if that is missing too.
pub open spec fn sccp_party(a: SuaPartyModel) -> AddressModel {
    match a.title {
        Some(t) => AddressModel {
            route_on_ssn: false,
            point_code: short_code(a.point_code),
            ssn: a.ssn,
            global_title: sccp_title(t),
        },
        None => AddressModel {
            route_on_ssn: true,
            point_code: short_code(a.point_code),
            ssn: Some(
                match a.ssn {
                    Some(s) => s,
                    None => 0,
                },
            ),
            global_title: TitleModel::NoTitle,
        },
    }
}

/// The SUA global title of an SCCP one, if there is one.
pub open spec fn sua_title(t: TitleModel) -> Option<SuaTitleModel> {
    match t {
        TitleModel::Gt0100 {
            translation_type,
            numbering_plan,
            encoding_scheme,
            nature_of_address,
            digits,
        } => Some(
            SuaTitleModel { gti: 4, translation_type, numbering_plan, nature_of_address, digits },
        ),
        TitleModel::Gt0011 { translation_type, numbering_plan, encoding_scheme, digits } => Some(
            SuaTitleModel { gti: 3, translation_type, numbering_plan, nature_of_address: 0, digits },
        ),
        TitleModel::Gt0010 { translation_type, digits } => Some(
            SuaTitleModel {
                gti: 2,
                translation_type,
                numbering_plan: 0,
                nature_of_address: 0,
                digits,
            },
        ),
        TitleModel::Gt0001 { nature_of_address, odd_even, digits } => Some(
            SuaTitleModel {
                gti: 1,
                translation_type: 0,
                numbering_plan: 0,
                nature_of_address,
                digits,
            },
        ),
        TitleModel::NoTitle => None,
    }
}

/// The SUA address of an SCCP one: by global title if there is one, else by
/// subsystem number and point code, 0 for what is missing.
pub open spec fn sua_party(a: AddressModel) -> SuaPartyModel {
    match sua_title(a.global_title) {
        Some(t) => SuaPartyModel {
            routing: 1,
            include_gt: true,
            include_pc: a.point_code is Some,
            include_ssn: a.ssn is Some,
            title: Some(t),
            point_code: match a.point_code {
                Some(p) => Some(p as u32),
                None => None,
            },
            ssn: a.ssn,
        },
        None => SuaPartyModel {
            routing: 2,
            include_gt: false,
            include_pc: true,
            include_ssn: true,
            title: None,
            point_code: Some(
                match a.point_code {
                    Some(p) => p as u32,
                    None => 0,
                },
            ),
            ssn: Some(
                match a.ssn {
                    Some(s) => s,
                    None => 0,
                },
            ),
        },
    }
}

/// The SCCP address of a SUA one.
pub fn sua_addr_to_sccp(addr: &SuaParty) -> (r: PartyAddress)
    ensures
        r@ == sccp_party(addr@),
{
    let point_code: Option<u16> = match addr.point_code {
        Some(p) => Some((p % 0x1_0000) as u16),
        None => None,
    };
    match &addr.title {
        Some(gt) => {
            let digits = gt.digits.clone();
            let odd = digits.as_str().unicode_len() % 2 == 1;
            let encoding_scheme: u8 = if odd {
                1
            } else {
                2
            };
            let global_title = match gt.gti {
                1 => PartyTitle::Gt0001 {
                    nature_of_address: gt.nature_of_address,
                    odd_even: odd,
                    digits,
                },
                2 => PartyTitle::Gt0010 { translation_type: gt.translation_type, digits },
                3 => PartyTitle::Gt0011 {
                    translation_type: gt.translation_type,
                    numbering_plan: gt.numbering_plan,
                    encoding_scheme,
                    digits,
                },
                _ => PartyTitle::Gt0100 {
                    translation_type: gt.translation_type,
                    numbering_plan: gt.numbering_plan,
                    encoding_scheme,
                    nature_of_address: gt.nature_of_address,
                    digits,
                },
            };
            PartyAddress { route_on_ssn: false, point_code, ssn: addr.ssn, global_title }
        },
        None => {
            let ssn: u8 = match addr.ssn {
                Some(s) => s,
                None => 0,
            };
            PartyAddress::with_ssn(ssn, point_code)
        },
    }
}

/// The SUA address of an SCCP one.
pub fn sccp_addr_to_sua(addr: &PartyAddress) -> (r: SuaParty)
    ensures
        r@ == sua_party(addr@),
{
    let title = match &addr.global_title {
        PartyTitle::Gt0100 {
            translation_type,
            numbering_plan,
            encoding_scheme: _,
            nature_of_address,
            digits,
        } => Some(
            SuaTitle {
                gti: 4,
                translation_type: *translation_type,
                numbering_plan: *numbering_plan,
                nature_of_address: *nature_of_address,
                digits: digits.clone(),
            },
        ),
        PartyTitle::Gt0011 {
            translation_type,
            numbering_plan,
            encoding_scheme: _,
            digits,
        } => Some(
            SuaTitle {
                gti: 3,
                translation_type: *translation_type,
                numbering_plan: *numbering_plan,
                nature_of_address: 0,
                digits: digits.clone(),
            },
        ),
        PartyTitle::Gt0010 { translation_type, digits } => Some(
            SuaTitle {
                gti: 2,
                translation_type: *translation_type,
                numbering_plan: 0,
                nature_of_address: 0,
                digits: digits.clone(),
            },
        ),
        PartyTitle::Gt0001 { nature_of_address, odd_even: _, digits } => Some(
            SuaTitle {
                gti: 1,
                translation_type: 0,
                numbering_plan: 0,
                nature_of_address: *nature_of_address,
                digits: digits.clone(),
            },
        ),
        PartyTitle::NoTitle => None,
    };
    match title {
        Some(t) => {
            let point_code: Option<u32> = match addr.point_code {
                Some(p) => Some(p as u32),
                None => None,
            };
            SuaParty {
                routing: 1,
                include_gt: true,
                include_pc: addr.point_code.is_some(),
                include_ssn: addr.ssn.is_some(),
                title: Some(t),
                point_code,
                ssn: addr.ssn,
            }
        },
        None => {
            let point_code: u32 = match addr.point_code {
                Some(p) => p as u32,
                None => 0,
            };
            let ssn: u8 = match addr.ssn {
                Some(s) => s,
                None => 0,
            };
            SuaParty {
                routing: 2,
                include_gt: false,
                include_pc: true,
                include_ssn: true,
                title: None,
                point_code: Some(point_code),
                ssn: Some(ssn),
            }
        },
    }
}

/// The destination point code of a bridged message: an address routed on
/// subsystem and point code (or IP address) keeps its point code, every other is
/// stamped with the node's own, so that its global title is translated.
pub open spec fn bridged_dpc(dest: SuaPartyModel, node_pc: u32) -> u32 {
    if dest.routing == 2 || dest.routing == 4 {
        match dest.point_code {
            Some(p) => p,
            None => node_pc,
        }
    } else {
        node_pc
    }
}

/// The destination point code of a bridged message.
pub fn sua_dest_dpc(dest: &SuaParty, node_pc: u32) -> (r: u32)
    ensures
        r == bridged_dpc(dest@, node_pc),
{
    if dest.routing == 2 || dest.routing == 4 {
        match dest.point_code {
            Some(p) => p,
            None => node_pc,
        }
    } else {
        node_pc
    }
}

/// The SCCP message that a CLDT bridges to: an extended one when it carries a hop
/// counter, else a short one.
pub open spec fn cldt_message(f: SuaModel, source: SuaPartyModel, dest: SuaPartyModel) -> MessageModel {
    MessageModel {
        form: if f.hop_count is Some {
            SccpForm::Extended
        } else {
            SccpForm::Short
        },
        head: SccpHead::Data {
            protocol_class: match f.protocol_class {
                Some(c) => c,
                None => 0,
            },
            message_handling: 0,
        },
        hop_counter: f.hop_count,
        called_party: sccp_party(dest),
        calling_party: sccp_party(source),
        data: match f.data {
            Some(d) => d,
            None => Seq::empty(),
        },
        optional_part: Seq::empty(),
    }
}

/// The SCCP message that a CLDR bridges to: the service message with its cause.
pub open spec fn cldr_message(f: SuaModel, source: SuaPartyModel, dest: SuaPartyModel) -> MessageModel {
    MessageModel {
        form: SccpForm::Short,
        head: SccpHead::Service {
            return_cause: match f.cause {
                Some(c) => c.1,
                None => 0,
            },
        },
        hop_counter: None,
        called_party: sccp_party(dest),
        calling_party: sccp_party(source),
        data: match f.data {
            Some(d) => d,
            None => Seq::empty(),
        },
        optional_part: Seq::empty(),
    }
}

/// The link selection of a bridged message: the low octet of the sequence
/// control.
pub open spec fn bridged_sls(f: SuaModel) -> u8 {
    match f.sequence_control {
        Some(s) => (s % 256) as u8,
        None => 0,
    }
}

/// The unit of a bridged message.
pub open spec fn bridged_unit(
    payload: Result<Seq<u8>, Seq<char>>,
    source: SuaPartyModel,
    dest: SuaPartyModel,
    node_pc: u32,
    node_ni: u8,
    sls: u8,
) -> Result<MsuModel, TransportFault> {
    match payload {
        Err(e) => Err(TransportFault::Sccp(e)),
        Ok(b) => Ok(
            MsuModel {
                opc: match source.point_code {
                    Some(p) => p,
                    None => 0,
                },
                dpc: bridged_dpc(dest, node_pc),
                si: SI_SCCP,
                ni: node_ni,
                mp: 0,
                sls,
                payload: b,
            },
        ),
    }
}

/// The unit that a decoded SUA message bridges to. Only the connectionless
/// messages (class 7) are bridged.
pub open spec fn unit_of_sua(d: Result<SuaModel, Seq<char>>, node_pc: u32, node_ni: u8) -> Result<
    MsuModel,
    TransportFault,
> {
    match d {
        Err(e) => Err(TransportFault::Sua(e)),
        Ok(f) => if f.class == 7 && (f.kind == 1 || f.kind == 2) {
            match f.destination {
                Err(e) => Err(TransportFault::Sua(e)),
                Ok(dest) => match f.source {
                    Err(e) => Err(TransportFault::Sua(e)),
                    Ok(source) => if f.kind == 1 {
                        bridged_unit(
                            sccp_encoded(cldt_message(f, source, dest)),
                            source,
                            dest,
                            node_pc,
                            node_ni,
                            bridged_sls(f),
                        )
                    } else {
                        bridged_unit(
                            sccp_encoded(cldr_message(f, source, dest)),
                            source,
                            dest,
                            node_pc,
                            node_ni,
                            0,
                        )
                    },
                },
            }
        } else {
            Err(TransportFault::Framing("expected SUA CLDT/CLDR, got "@ + f.name))
        },
    }
}

fn data_or_empty(d: Option<Vec<u8>>) -> (r: Vec<u8>)
    ensures
        r@ == match d {
            Some(v) => v@,
            None => Seq::empty(),
        },
{
    match d {
        Some(v) => v,
        None => {
            let v: Vec<u8> = Vec::new();
            proof {
                assert(v@ =~= Seq::empty());
            }
            v
        },
    }
}

fn no_octets() -> (r: Vec<u8>)
    ensures
        r@ == Seq::<u8>::empty(),
{
    let v: Vec<u8> = Vec::new();
    proof {
        assert(v@ =~= Seq::<u8>::empty());
    }
    v
}

/// Puts a bridged SCCP message into a unit.
fn bridge(
    message: Unitdata,
    source: &SuaParty,
    dest: &SuaParty,
    node_pc: u32,
    node_ni: u8,
    sls: u8,
) -> (r: Result<Msu, TransportError>)
    requires
        message.wf(),
    ensures
        msu_outcome(r) == bridged_unit(
            sccp_encoded(message@),
            source@,
            dest@,
            node_pc,
            node_ni,
            sls,
        ),
{
    let opc: u32 = match source.point_code {
        Some(p) => p,
        None => 0,
    };
    match message.encode() {
        Err(e) => Err(TransportError::Sccp(e)),
        Ok(payload) => Ok(
            Msu {
                opc,
                dpc: sua_dest_dpc(dest, node_pc),
                si: SI_SCCP,
                ni: node_ni,
                mp: 0,
                sls,
                payload,
            },
        ),
    }
}

/// Bridges a CLDT to a unit that carries the equivalent UDT, or XUDT when the
/// CLDT has a hop counter.
fn cldt_to_msu(
    hop_count: Option<u8>,
    protocol_class: Option<u8>,
    sequence_control: Option<u32>,
    data: Option<Vec<u8>>,
    source: SuaParty,
    dest: SuaParty,
    node_pc: u32,
    node_ni: u8,
) -> (r: Result<Msu, TransportError>)
    ensures
        forall|f: SuaModel|
            f.hop_count == hop_count && f.protocol_class == protocol_class && f.sequence_control
                == sequence_control && f.data == some_octets(data) ==> msu_outcome(r)
                == bridged_unit(
                sccp_encoded(#[trigger] cldt_message(f, source@, dest@)),
                source@,
                dest@,
                node_pc,
                node_ni,
                bridged_sls(f),
            ),
{
    let class: u8 = match protocol_class {
        Some(c) => c,
        None => 0,
    };
    let sls: u8 = match sequence_control {
        Some(s) => (s % 256) as u8,
        None => 0,
    };
    let ghost d = some_octets(data);
    let payload = data_or_empty(data);
    let message = Unitdata {
        form: match hop_count {
            Some(_) => SccpForm::Extended,
            None => SccpForm::Short,
        },
        head: SccpHead::Data { protocol_class: class, message_handling: 0 },
        hop_counter: hop_count,
        called_party: sua_addr_to_sccp(&dest),
        calling_party: sua_addr_to_sccp(&source),
        data: payload,
        optional_part: no_octets(),
    };
    proof {
        assert forall|f: SuaModel|
            f.hop_count == hop_count && f.protocol_class == protocol_class && f.sequence_control
                == sequence_control && f.data == d implies message@ == #[trigger] cldt_message(
            f,
            source@,
            dest@,
        ) && bridged_sls(f) == sls by {}
    }
    bridge(message, &source, &dest, node_pc, node_ni, sls)
}

/// Bridges a CLDR to a unit that carries the equivalent UDTS.
fn cldr_to_msu(
    cause: Option<(u8, u8)>,
    data: Option<Vec<u8>>,
    source: SuaParty,
    dest: SuaParty,
    node_pc: u32,
    node_ni: u8,
) -> (r: Result<Msu, TransportError>)
    ensures
        forall|f: SuaModel|
            f.cause == cause && f.data == some_octets(data) ==> msu_outcome(r) == bridged_unit(
                sccp_encoded(#[trigger] cldr_message(f, source@, dest@)),
                source@,
                dest@,
                node_pc,
                node_ni,
                0,
            ),
{
    let return_cause: u8 = match cause {
        Some(c) => c.1,
        None => 0,
    };
    let ghost d = some_octets(data);
    let payload = data_or_empty(data);
    let message = Unitdata {
        form: SccpForm::Short,
        head: SccpHead::Service { return_cause },
        hop_counter: None,
        called_party: sua_addr_to_sccp(&dest),
        calling_party: sua_addr_to_sccp(&source),
        data: payload,
        optional_part: no_octets(),
    };
    proof {
        assert forall|f: SuaModel| f.cause == cause && f.data == d implies message@
            == #[trigger] cldr_message(f, source@, dest@) by {}
    }
    bridge(message, &source, &dest, node_pc, node_ni, 0)
}

/// The unit that a decoded SUA message bridges to.
pub fn msu_of_sua(frame: Result<SuaFrame, String>, node_pc: u32, node_ni: u8) -> (r: Result<
    Msu,
    TransportError,
>)
    ensures
        msu_outcome(r) == unit_of_sua(sua_outcome(frame), node_pc, node_ni),
{
    match frame {
        Err(e) => Err(TransportError::Sua(e)),
        Ok(f) => {
            let ghost model = f@;
            if f.class == 7 && (f.kind == 1 || f.kind == 2) {
                let dest = match f.destination {
                    Ok(a) => a,
                    Err(e) => {
                        return Err(TransportError::Sua(e));
                    },
                };
                let source = match f.source {
                    Ok(a) => a,
                    Err(e) => {
                        return Err(TransportError::Sua(e));
                    },
                };
                if f.kind == 1 {
                    proof {
                        assert(model.data == some_octets(f.data));
                        let trigger = cldt_message(model, source@, dest@);
                    }
                    cldt_to_msu(
                        f.hop_count,
                        f.protocol_class,
                        f.sequence_control,
                        f.data,
                        source,
                        dest,
                        node_pc,
                        node_ni,
                    )
                } else {
                    cldr_to_msu(f.cause, f.data, source, dest, node_pc, node_ni)
                }
            } else {
                Err(TransportError::Framing(join2("expected SUA CLDT/CLDR, got ", f.name.as_str())))
            }
        },
    }
}

/// Extracts a unit from a SUA CLDT or CLDR by bridging it to the equivalent SCCP
/// message, so that it is routed as one arriving over M3UA. Any other message is
/// an error.
pub fn extract_sua(payload: &[u8], node_pc: u32, node_ni: u8) -> (r: Result<Msu, TransportError>)
    ensures
        msu_outcome(r) == unit_of_sua(sua_decoded(payload@), node_pc, node_ni),
{
    msu_of_sua(sua_decode(payload), node_pc, node_ni)
}

/// What an SCCP message becomes on SUA: a data message a CLDT with the message's
/// hop counter, a service message a CLDR with its cause.
pub open spec fn sua_octets_of(m: MessageModel, sls: u8, routing_context: u32) -> Result<
    Seq<u8>,
    Seq<char>,
> {
    match m.head {
        SccpHead::Data { protocol_class, message_handling } => cldt_octets(
            routing_context,
            protocol_class,
            sua_party(m.calling_party),
            sua_party(m.called_party),
            sls as u32,
            m.hop_counter,
            m.data,
        ),
        SccpHead::Service { return_cause } => cldr_octets(
            routing_context,
            RETURN_CAUSE,
            return_cause,
            sua_party(m.calling_party),
            sua_party(m.called_party),
            m.data,
        ),
    }
}

/// What wrapping a unit for SUA gives, given its decoded payload.
pub open spec fn sua_frame_of(
    m: MsuModel,
    payload: Result<MessageModel, Seq<char>>,
    routing_context: u32,
) -> Result<Seq<u8>, TransportFault> {
    if m.si != SI_SCCP {
        Err(
            TransportFault::Framing(
                "sua carries only the SCCP user (SI=3); cannot wrap SI="@ + decimal(m.si as nat),
            ),
        )
    } else {
        match payload {
            Err(e) => Err(TransportFault::Sccp(e)),
            Ok(message) => match sua_octets_of(message, m.sls, routing_context) {
                Ok(b) => Ok(b),
                Err(e) => Err(TransportFault::Sua(e)),
            },
        }
    }
}

/// SUA can write the message: both its addresses.
pub open spec fn sua_writes_message(m: MessageModel) -> bool {
    sua_writes_both(sua_party(m.calling_party), sua_party(m.called_party))
}

/// SUA gives back what it carries of the message: both addresses read back, and the
/// length field can count the data.
pub open spec fn sua_keeps_message(m: MessageModel) -> bool {
    sua_carries(sua_party(m.calling_party), sua_party(m.called_party), m.data)
}

/// The SUA message of an SCCP one, as it is read.
pub open spec fn sua_model_of(m: MessageModel, sls: u8, routing_context: u32) -> SuaModel {
    match m.head {
        SccpHead::Data { protocol_class, message_handling } => cldt_model(
            routing_context,
            protocol_class,
            sua_party(m.calling_party),
            sua_party(m.called_party),
            sls as u32,
            m.hop_counter,
            m.data,
        ),
        SccpHead::Service { return_cause } => cldr_model(
            routing_context,
            (RETURN_CAUSE, return_cause),
            sua_party(m.calling_party),
            sua_party(m.called_party),
            m.data,
        ),
    }
}

/// What SUA leaves of an SCCP message: the head without its message handling, the hop
/// counter of a data message, both addresses, and the data. A message with a hop
/// counter is an extended one, every other a short one.
pub open spec fn over_sua(m: MessageModel) -> MessageModel {
    let hop_counter = if m.head is Data {
        m.hop_counter
    } else {
        None
    };
    MessageModel {
        form: if hop_counter is Some {
            SccpForm::Extended
        } else {
            SccpForm::Short
        },
        head: match m.head {
            SccpHead::Data { protocol_class, message_handling } => SccpHead::Data {
                protocol_class,
                message_handling: 0,
            },
            SccpHead::Service { return_cause } => m.head,
        },
        hop_counter,
        called_party: sccp_party(sua_party(m.called_party)),
        calling_party: sccp_party(sua_party(m.calling_party)),
        data: m.data,
        optional_part: Seq::empty(),
    }
}

/// The unit that comes back of an SCCP message wrapped for SUA. A CLDR carries no link
/// selection.
pub open spec fn back_from_sua(m: MessageModel, sls: u8, node_pc: u32, node_ni: u8) -> Result<
    MsuModel,
    TransportFault,
> {
    bridged_unit(
        sccp_encoded(over_sua(m)),
        sua_party(m.calling_party),
        sua_party(m.called_party),
        node_pc,
        node_ni,
        if m.head is Data {
            sls
        } else {
            0
        },
    )
}

/// Unwrapping what a SUA message says gives the SCCP message back, as far as SUA
/// carries it.
pub proof fn law_sua_gives_the_message_back(
    m: MessageModel,
    sls: u8,
    routing_context: u32,
    node_pc: u32,
    node_ni: u8,
)
    ensures
        unit_of_sua(
            Ok::<SuaModel, Seq<char>>(sua_model_of(m, sls, routing_context)),
            node_pc,
            node_ni,
        ) == back_from_sua(m, sls, node_pc, node_ni),
{
    let f = sua_model_of(m, sls, routing_context);
    let source = sua_party(m.calling_party);
    let dest = sua_party(m.called_party);
    match m.head {
        SccpHead::Data { protocol_class, message_handling } => {
            assert(cldt_message(f, source, dest) == over_sua(m));
            assert(bridged_sls(f) == sls);
        },
        SccpHead::Service { return_cause } => {
            assert(cldr_message(f, source, dest) == over_sua(m));
        },
    }
}

/// A message that is all that SUA carries comes back unchanged: a data message without
/// message handling, or a service message without a hop counter, with addresses that
/// bridge whole and no optional part, in the form that goes with its hop counter.
pub proof fn law_sua_keeps_plain_messages(m: MessageModel)
    requires
        bridgeable(m.calling_party),
        bridgeable(m.called_party),
        m.optional_part.len() == 0,
        m.form == if m.hop_counter is Some {
            SccpForm::Extended
        } else {
            SccpForm::Short
        },
        match m.head {
            SccpHead::Data { protocol_class, message_handling } => message_handling == 0,
            SccpHead::Service { return_cause } => m.hop_counter is None,
        },
    ensures
        over_sua(m) == m,
{
    law_address_bridge_is_lossless(m.calling_party);
    law_address_bridge_is_lossless(m.called_party);
    assert(m.optional_part =~= Seq::empty());
}

/// Encodes an SCCP message as a SUA CLDT or CLDR.
pub fn sua_of_unitdata(message: &Unitdata, sls: u8, routing_context: u32) -> (r: Result<
    Vec<u8>,
    String,
>)
    ensures
        sua_octets_outcome(r) == sua_octets_of(message@, sls, routing_context),
        r is Ok <==> sua_writes_message(message@),
        r matches Ok(v) ==> (sua_keeps_message(message@) ==> is_sua(
            sua_decoded(v@),
            sua_model_of(message@, sls, routing_context),
        )),
{
    let source = sccp_addr_to_sua(&message.calling_party);
    let destination = sccp_addr_to_sua(&message.called_party);
    let data = copy_octets(&message.data);
    match message.head {
        SccpHead::Data { protocol_class, message_handling: _ } => sua_cldt(
            routing_context,
            protocol_class,
            &source,
            &destination,
            sls as u32,
            message.hop_counter,
            data,
        ),
        SccpHead::Service { return_cause } => sua_cldr(
            routing_context,
            RETURN_CAUSE,
            return_cause,
            &source,
            &destination,
            data,
        ),
    }
}

/// Wraps a unit whose payload is an SCCP message in a SUA CLDT or CLDR with the
/// routing context. A unit of another service indicator cannot be framed. Where SUA
/// keeps the message, [`extract_sua`] gives back what SUA carries of it.
pub fn wrap_sua(msu: &Msu, routing_context: u32) -> (r: Result<Vec<u8>, TransportError>)
    ensures
        frame_outcome(r) == sua_frame_of(msu@, sccp_decoded(msu.payload@), routing_context),
        r is Ok <==> msu.si == SI_SCCP && (sccp_decoded(msu.payload@) matches Ok(m)
            && sua_writes_message(m)),
        r matches Ok(v) ==> (sccp_decoded(msu.payload@) matches Ok(m) ==> (sua_keeps_message(m)
            ==> is_sua(sua_decoded(v@), sua_model_of(m, msu.sls, routing_context)))),
        r matches Ok(v) ==> (sccp_decoded(msu.payload@) matches Ok(m) ==> (sua_keeps_message(m)
            ==> forall|node_pc: u32, node_ni: u8| #[trigger]
            unit_of_sua(sua_decoded(v@), node_pc, node_ni) == back_from_sua(
                m,
                msu.sls,
                node_pc,
                node_ni,
            ))),
{
    if msu.si != SI_SCCP {
        return Err(
            TransportError::Framing(
                join2(
                    "sua carries only the SCCP user (SI=3); cannot wrap SI=",
                    decimal_of(msu.si as u64).as_str(),
                ),
            ),
        );
    }
    match Unitdata::decode(msu.payload.as_slice()) {
        Err(e) => Err(TransportError::Sccp(e)),
        Ok(message) => match sua_of_unitdata(&message, msu.sls, routing_context) {
            Ok(v) => {
                proof {
                    let m = message@;
                    assert forall|node_pc: u32, node_ni: u8| sua_keeps_message(m) implies #[trigger]
                    unit_of_sua(sua_decoded(v@), node_pc, node_ni) == back_from_sua(
                        m,
                        msu.sls,
                        node_pc,
                        node_ni,
                    ) by {
                        law_sua_gives_the_message_back(
                            m,
                            msu.sls,
                            routing_context,
                            node_pc,
                            node_ni,
                        );
                    }
                }
                Ok(v)
            },
            Err(e) => Err(TransportError::Sua(e)),
        },
    }
}

/// An SCCP address that SUA can carry whole: by global title with the encoding
/// scheme of its parity, or by subsystem number with both fields present.
pub open spec fn bridgeable(a: AddressModel) -> bool {
    match a.global_title {
        TitleModel::NoTitle => a.route_on_ssn && a.ssn is Some && a.point_code is Some,
        TitleModel::Gt0001 { nature_of_address, odd_even, digits } => !a.route_on_ssn && odd_even
            == (digits.len() % 2 == 1),
        TitleModel::Gt0010 { .. } => !a.route_on_ssn,
        TitleModel::Gt0011 { encoding_scheme, digits, .. } => !a.route_on_ssn && encoding_scheme
            == parity_scheme(digits),
        TitleModel::Gt0100 { encoding_scheme, digits, .. } => !a.route_on_ssn && encoding_scheme
            == parity_scheme(digits),
    }
}

/// The bridge between SCCP and SUA loses nothing of the global title, subsystem
/// number and point code: there and back gives the same address.
pub proof fn law_address_bridge_is_lossless(a: AddressModel)
    requires
        bridgeable(a),
    ensures
        sccp_party(sua_party(a)) == a,
{
}

/// Whatever the address, the bridge keeps the digits of its global title.
pub proof fn law_bridge_keeps_digits(a: AddressModel)
    ensures
        sccp_party(sua_party(a)).global_title.digits() == a.global_title.digits(),
{
}

/// A message routed on a global title is stamped with the node's own point code,
/// one routed on subsystem and point code keeps the point code it names.
pub proof fn law_bridged_destination(a: AddressModel, node_pc: u32)
    ensures
        a.global_title.digits() is Some ==> bridged_dpc(sua_party(a), node_pc) == node_pc,
        a.global_title.digits() is None && a.point_code is Some ==> bridged_dpc(
            sua_party(a),
            node_pc,
        ) == a.point_code->Some_0,
{
}

} // verus!
