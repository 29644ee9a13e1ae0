//! What framing keeps of a unit, stated on its fields.
use crate::sccp::message::{
    sccp_encoded, AddressModel, MessageModel, SccpForm, TitleModel,
};
use crate::transport::framing::{
    cldr_message, cldt_message, fits_itu, itu_carried, itu_round_trip, sccp_party,
    sccp_title, sua_frame_of, sua_party, sua_title, unit_of_m2pa, unit_of_m3ua, unit_of_sua,
};
use crate::transport::msu::{MsuModel, TransportFault};
use crate::transport::wire::{
    itu_octets, itu_unit, M2paModel, M3uaModel, SuaModel, SuaPartyModel, SuaTitleModel,
};
use vstd::prelude::*;

verus! {

/// A unit whose fields fit the international label is read back as it was written.
pub proof fn law_itu_reads_back(m: MsuModel)
    requires
        m.opc < 0x4000,
        m.dpc < 0x4000,
        m.si < 16,
        m.ni < 4,
        m.mp < 4,
        m.sls < 16,
    ensures
        itu_unit(itu_octets(m)) == Ok::<MsuModel, Seq<char>>(m),
        fits_itu(m),
{
    itu_round_trip(m);
    assert(itu_carried(m) == m);
}

/// What M2PA carries of any unit: its payload, and each field of its label cut to its
/// width: 14 bits for a point code, 4 for the service indicator and the link selection, 2
/// for the network indicator and the priority.
pub proof fn law_m2pa_cuts_to_the_label(m: MsuModel)
    ensures
        itu_carried(m).opc == m.opc % 0x4000,
        itu_carried(m).dpc == m.dpc % 0x4000,
        itu_carried(m).si == m.si % 16,
        itu_carried(m).sls == m.sls % 16,
        itu_carried(m).ni == m.ni % 4,
        itu_carried(m).mp == m.mp % 4,
        itu_carried(m).payload == m.payload,
{
}

/// An M3UA frame gives a unit exactly if it is a payload message whose payload reads: that
/// unit. An M2PA frame gives the unit of its user data, and none for a link status.
pub proof fn law_frames_give_their_unit(a: M3uaModel, b: M2paModel, error: Seq<char>)
    ensures
        unit_of_m3ua(Ok(a)) is Ok <==> a.class == 1 && a.kind == 1 && a.data is Ok,
        a.class == 1 && a.kind == 1 && a.data is Ok ==> unit_of_m3ua(Ok(a)) == Ok::<
            MsuModel,
            TransportFault,
        >(a.data->Ok_0),
        unit_of_m3ua(Err(error)) is Err,
        b is LinkStatus ==> unit_of_m2pa(Ok(b)) == Ok::<Option<MsuModel>, TransportFault>(None),
        b is UserData && itu_unit(b->msu) is Ok ==> unit_of_m2pa(Ok(b)) == Ok::<
            Option<MsuModel>,
            TransportFault,
        >(Some(itu_unit(b->msu)->Ok_0)),
        b is UserData && itu_unit(b->msu) is Err ==> unit_of_m2pa(Ok(b)) is Err,
        unit_of_m2pa(Err(error)) is Err,
{
}

/// An SUA message becomes an SCCP unit that comes from its source and goes where it is
/// addressed: to the point code of a destination that is routed by one, else to our own.
/// It carries our network indicator, and its sequence control selects the link.
pub proof fn law_sua_becomes_a_unit(f: SuaModel, node_pc: u32, node_ni: u8, u: MsuModel)
    requires
        unit_of_sua(Ok(f), node_pc, node_ni) == Ok::<MsuModel, TransportFault>(u),
    ensures
        f.class == 7,
        f.kind == 1 || f.kind == 2,
        f.source is Ok,
        f.destination is Ok,
        u.si == 3,
        u.ni == node_ni,
        u.mp == 0,
        f.source->Ok_0.point_code matches Some(p) ==> u.opc == p,
        f.source->Ok_0.point_code is None ==> u.opc == 0,
        f.destination->Ok_0.routing == 2 || f.destination->Ok_0.routing == 4 ==> (
        f.destination->Ok_0.point_code matches Some(p) ==> u.dpc == p),
        f.destination->Ok_0.point_code is None || (f.destination->Ok_0.routing != 2
            && f.destination->Ok_0.routing != 4) ==> u.dpc == node_pc,
        f.kind == 1 ==> (f.sequence_control matches Some(s) ==> u.sls == s % 256),
        f.kind == 2 || f.sequence_control is None ==> u.sls == 0,
        f.kind == 1 ==> sccp_encoded(cldt_message(f, f.source->Ok_0, f.destination->Ok_0)) == Ok::<
            Seq<u8>,
            Seq<char>,
        >(u.payload),
        f.kind == 2 ==> sccp_encoded(cldr_message(f, f.source->Ok_0, f.destination->Ok_0)) == Ok::<
            Seq<u8>,
            Seq<char>,
        >(u.payload),
{
}

/// The SCCP message that an SUA message stands for: data with its protocol class and hop
/// count, extended if it has one; or a return with its cause. Its parties and its data
/// are those of the SUA message.
pub proof fn law_sua_message_fields(f: SuaModel, source: SuaPartyModel, dest: SuaPartyModel)
    ensures
        ({
            let m = cldt_message(f, source, dest);
            &&& m.form == SccpForm::Extended <==> f.hop_count is Some
            &&& m.form == SccpForm::Short <==> f.hop_count is None
            &&& m.hop_counter == f.hop_count
            &&& m.head is Data
            &&& m.head->message_handling == 0
            &&& f.protocol_class matches Some(c) ==> m.head->protocol_class == c
            &&& f.protocol_class is None ==> m.head->protocol_class == 0
            &&& m.called_party == sccp_party(dest)
            &&& m.calling_party == sccp_party(source)
            &&& f.data matches Some(d) ==> m.data == d
            &&& f.data is None ==> m.data.len() == 0
            &&& m.optional_part.len() == 0
        }),
        ({
            let m = cldr_message(f, source, dest);
            &&& m.form == SccpForm::Short
            &&& m.hop_counter is None
            &&& m.head is Service
            &&& f.cause matches Some(c) ==> m.head->return_cause == c.1
            &&& f.cause is None ==> m.head->return_cause == 0
            &&& m.called_party == sccp_party(dest)
            &&& m.calling_party == sccp_party(source)
            &&& f.data matches Some(d) ==> m.data == d
            &&& f.data is None ==> m.data.len() == 0
        }),
{
}

/// Only an SCCP unit whose payload decodes goes over SUA.
pub proof fn law_sua_carries_sccp_only(
    m: MsuModel,
    payload: Result<MessageModel, Seq<char>>,
    routing_context: u32,
)
    ensures
        m.si != 3 ==> sua_frame_of(m, payload, routing_context) is Err,
        payload is Err ==> sua_frame_of(m, payload, routing_context) is Err,
{
}

/// A title that goes over SUA keeps its digits and the fields that its format has; those
/// that it has not are 0. Its parity is told by its digits: an encoding scheme of 1 for an
/// odd number of them and 2 for an even one.
pub proof fn law_sua_title_fields(t: TitleModel, u: SuaTitleModel)
    ensures
        t is NoTitle <==> sua_title(t) is None,
        t is Gt0001 ==> sua_title(t) == Some(
            SuaTitleModel {
                gti: 1,
                translation_type: 0,
                numbering_plan: 0,
                nature_of_address: t->Gt0001_nature_of_address,
                digits: t->Gt0001_digits,
            },
        ),
        t is Gt0010 ==> sua_title(t) == Some(
            SuaTitleModel {
                gti: 2,
                translation_type: t->Gt0010_translation_type,
                numbering_plan: 0,
                nature_of_address: 0,
                digits: t->Gt0010_digits,
            },
        ),
        t is Gt0011 ==> sua_title(t) == Some(
            SuaTitleModel {
                gti: 3,
                translation_type: t->Gt0011_translation_type,
                numbering_plan: t->Gt0011_numbering_plan,
                nature_of_address: 0,
                digits: t->Gt0011_digits,
            },
        ),
        t is Gt0100 ==> sua_title(t) == Some(
            SuaTitleModel {
                gti: 4,
                translation_type: t->Gt0100_translation_type,
                numbering_plan: t->Gt0100_numbering_plan,
                nature_of_address: t->Gt0100_nature_of_address,
                digits: t->Gt0100_digits,
            },
        ),
        u.gti == 1 ==> sccp_title(u) == (TitleModel::Gt0001 {
            nature_of_address: u.nature_of_address,
            odd_even: u.digits.len() % 2 == 1,
            digits: u.digits,
        }),
        u.gti == 2 ==> sccp_title(u) == (TitleModel::Gt0010 {
            translation_type: u.translation_type,
            digits: u.digits,
        }),
        u.gti == 3 ==> sccp_title(u) == (TitleModel::Gt0011 {
            translation_type: u.translation_type,
            numbering_plan: u.numbering_plan,
            encoding_scheme: if u.digits.len() % 2 == 1 {
                1
            } else {
                2
            },
            digits: u.digits,
        }),
        u.gti != 1 && u.gti != 2 && u.gti != 3 ==> sccp_title(u) == (TitleModel::Gt0100 {
            translation_type: u.translation_type,
            numbering_plan: u.numbering_plan,
            encoding_scheme: if u.digits.len() % 2 == 1 {
                1
            } else {
                2
            },
            nature_of_address: u.nature_of_address,
            digits: u.digits,
        }),
{
}

/// An address that goes over SUA is routed by its title where it has one, and else by its
/// point code and subsystem, which count as 0 where they are missing.
pub proof fn law_sua_party_fields(a: AddressModel, p: SuaPartyModel)
    ensures
        !(a.global_title is NoTitle) ==> {
            let s = sua_party(a);
            &&& s.routing == 1 && s.include_gt && s.title == sua_title(a.global_title)
            &&& s.ssn == a.ssn && (s.include_ssn <==> a.ssn is Some)
            &&& s.include_pc <==> a.point_code is Some
            &&& a.point_code matches Some(pc) ==> s.point_code == Some(pc as u32)
            &&& a.point_code is None ==> s.point_code is None
        },
        a.global_title is NoTitle ==> {
            let s = sua_party(a);
            &&& s.routing == 2 && !s.include_gt && s.title is None && s.include_pc && s.include_ssn
            &&& a.ssn matches Some(x) ==> s.ssn == Some(x)
            &&& a.ssn is None ==> s.ssn == Some(0u8)
            &&& a.point_code matches Some(pc) ==> s.point_code == Some(pc as u32)
            &&& a.point_code is None ==> s.point_code == Some(0u32)
        },
        p.title is Some ==> {
            let s = sccp_party(p);
            &&& !s.route_on_ssn && s.ssn == p.ssn && s.global_title == sccp_title(p.title->Some_0)
            &&& p.point_code matches Some(pc) ==> s.point_code == Some((pc % 0x1_0000) as u16)
            &&& p.point_code is None ==> s.point_code is None
        },
        p.title is None ==> {
            let s = sccp_party(p);
            &&& s.route_on_ssn && s.global_title is NoTitle
            &&& p.ssn matches Some(x) ==> s.ssn == Some(x)
            &&& p.ssn is None ==> s.ssn == Some(0u8)
            &&& p.point_code matches Some(pc) ==> s.point_code == Some((pc % 0x1_0000) as u16)
            &&& p.point_code is None ==> s.point_code is None
        },
{
}

} // verus!
