use siphon_sigtran::python::node::gt_address;
use siphon_sigtran::sccp::message::{SccpForm, SccpHead, Unitdata};
use siphon_sigtran::transport::framing::{
    extract_m2pa, extract_m3ua, extract_sua, sua_of_unitdata, wrap_m2pa, wrap_m3ua, wrap_sua, SI_ISUP,
    SI_SCCP,
};
use siphon_sigtran::transport::Msu;

fn sample() -> Msu {
    Msu {
        opc: 4107,
        dpc: 8209,
        si: SI_SCCP,
        ni: 0,
        mp: 0,
        sls: 7,
        payload: vec![0x09, 0x81, 0x03, 0x0e, 0x19],
    }
}

#[test]
fn m3ua_wrap_extract_round_trip() {
    let msu = sample();
    let bytes = wrap_m3ua(&msu, Some(100));
    let back = extract_m3ua(&bytes).unwrap();
    assert_eq!(back, msu);
}

#[test]
fn m2pa_wrap_extract_round_trip() {
    let msu = sample();
    let bytes = wrap_m2pa(&msu).unwrap();
    let back = extract_m2pa(&bytes).unwrap().expect("user data");
    assert_eq!(back, msu);
}

#[test]
fn m2pa_link_status_extracts_none() {
    let ls = m2pa::M2paMessage::LinkStatus {
        bsn: 0xFF_FFFF,
        fsn: 0xFF_FFFF,
        message: m2pa::LinkStatusMessage::new(m2pa::LinkState::Ready),
    }
    .encode()
    .unwrap();
    assert_eq!(extract_m2pa(&ls).unwrap(), None);
}

#[test]
fn si_is_preserved_for_non_sccp() {
    let mut msu = sample();
    msu.si = 5;
    let back = extract_m2pa(&wrap_m2pa(&msu).unwrap()).unwrap().unwrap();
    assert_eq!(back.si, 5);
    let back3 = extract_m3ua(&wrap_m3ua(&msu, None)).unwrap();
    assert_eq!(back3.si, 5);
}

#[test]
fn extract_m3ua_rejects_non_data() {
    let aspup = m3ua::M3uaMessage::asp_up(None, None).encode();
    assert!(extract_m3ua(&aspup).is_err());
}

const NODE_PC: u32 = 1000;

#[test]
fn sua_cldt_bridges_to_sccp_and_back() {
    let source = sua::SuaAddress::with_gt(sua::GlobalTitle::e164("15550100"), Some(8));
    let dest = sua::SuaAddress::with_gt(sua::GlobalTitle::e164("15559999"), Some(6));
    let cldt =
        sua::SuaMessage::cldt(100, 0, &source, &dest, 7, Some(15), vec![0x62, 0x40, 0x01]).unwrap();

    let msu = extract_sua(&cldt.encode(), NODE_PC, 2).unwrap();
    assert_eq!(msu.si, SI_SCCP);
    assert_eq!(msu.ni, 2, "the configured network indicator is stamped");
    assert_eq!(msu.dpc, NODE_PC, "GT-routed CLDT stamped with node PC for GTT");
    let decoded = sccp::SccpMessage::decode(&msu.payload).unwrap();
    assert_eq!(decoded.called_party().global_title.digits(), Some("15559999"));
    assert_eq!(decoded.calling_party().global_title.digits(), Some("15550100"));
    assert_eq!(decoded.data(), &[0x62, 0x40, 0x01]);
    assert_eq!(decoded.hop_counter(), Some(15));

    let back = sua::SuaMessage::decode(&wrap_sua(&msu, 100).unwrap()).unwrap();
    assert_eq!(back.message_type, sua::MessageType::Cldt);
    assert_eq!(back.destination_address().unwrap().gt_digits(), Some("15559999"));
    assert_eq!(back.source_address().unwrap().gt_digits(), Some("15550100"));
    assert_eq!(back.data(), Some(&[0x62, 0x40, 0x01][..]));
    assert_eq!(back.ss7_hop_count(), Some(15));
    assert_eq!(back.routing_context(), Some(100));
}

#[test]
fn sua_cldt_without_hop_counter_is_udt() {
    let source = sua::SuaAddress::with_gt(sua::GlobalTitle::e164("15550100"), Some(8));
    let dest = sua::SuaAddress::with_gt(sua::GlobalTitle::e164("15559999"), Some(6));
    let cldt = sua::SuaMessage::cldt(1, 0, &source, &dest, 0, None, vec![0xAA]).unwrap();
    let msu = extract_sua(&cldt.encode(), NODE_PC, 0).unwrap();
    assert!(matches!(
        sccp::SccpMessage::decode(&msu.payload).unwrap(),
        sccp::SccpMessage::Udt(_)
    ));
    let unit = Unitdata::decode(&msu.payload).unwrap();
    assert_eq!(unit.form, SccpForm::Short);
    assert!(matches!(unit.head, SccpHead::Data { .. }));
    assert_eq!(unit.data, vec![0xAA]);
}

#[test]
fn sua_ssn_pc_cldt_transits_by_dpc() {
    let source = sua::SuaAddress::with_ssn_pc(8, 1000);
    let dest = sua::SuaAddress::with_ssn_pc(6, 2000);
    let cldt = sua::SuaMessage::cldt(1, 0, &source, &dest, 0, None, vec![0xAB, 0xCD]).unwrap();
    let msu = extract_sua(&cldt.encode(), NODE_PC, 0).unwrap();
    assert_eq!(msu.dpc, 2000, "route-on-PC CLDT transits to the addressed DPC");
}

#[test]
fn extract_sua_rejects_non_connectionless() {
    let aspup = sua::SuaMessage::asp_up(None, None).encode();
    assert!(extract_sua(&aspup, NODE_PC, 0).is_err());
}

#[test]
fn wrap_sua_rejects_non_sccp() {
    let mut msu = sample();
    msu.si = SI_ISUP;
    assert!(wrap_sua(&msu, 100).is_err());
}

#[test]
fn wrapped_frames_are_what_the_codecs_write() {
    let msu = sample();
    let data = m3ua::M3uaMessage::data(
        None,
        Some(100),
        m3ua::ProtocolData::new(4107, 8209, 3, 0, 0, 7, msu.payload.clone()),
        None,
    );
    assert_eq!(wrap_m3ua(&msu, Some(100)), data.encode());
    let link = m2pa::M2paMessage::decode(&wrap_m2pa(&msu).unwrap()).unwrap();
    match link {
        m2pa::M2paMessage::UserData { message, .. } => {
            assert_eq!(&message.msu[..5], &[0x03, 0x11, 0xE0, 0x02, 0x74]);
            assert_eq!(&message.msu[5..], &msu.payload[..]);
        }
        _ => panic!("expected user data"),
    }
}

#[test]
fn garbage_is_refused_by_every_adaptation() {
    assert!(extract_m3ua(&[1, 2, 3]).is_err());
    assert!(extract_m2pa(&[1, 2, 3]).is_err());
    assert!(extract_sua(&[1, 2, 3], NODE_PC, 0).is_err());
}

#[test]
fn a_wide_point_code_is_masked_on_m2pa() {
    let wide = Msu { opc: 0xABCDEF, dpc: 0xFFFFFF, ..sample() };
    let masked = Msu { opc: 0xABCDEF & 0x3FFF, dpc: 0x3FFF, ..sample() };
    let bytes = wrap_m2pa(&wide).unwrap();
    assert_eq!(bytes, wrap_m2pa(&masked).unwrap());
    assert_eq!(extract_m2pa(&bytes).unwrap(), Some(masked));
    match m2pa::M2paMessage::decode(&bytes).unwrap() {
        m2pa::M2paMessage::UserData { bsn, fsn, .. } => {
            assert_eq!((bsn, fsn), (0xFF_FFFF, 0xFF_FFFF));
        }
        other => panic!("not user data: {other:?}"),
    }
}

#[test]
fn an_m3ua_frame_carries_its_routing_context() {
    for rc in [None, Some(0), Some(77)] {
        let m = m3ua::M3uaMessage::decode(&wrap_m3ua(&sample(), rc)).unwrap();
        assert_eq!(m.routing_context(), rc);
        assert_eq!(m.protocol_data().unwrap().user_data, sample().payload);
    }
}

#[test]
fn a_returned_message_carries_its_cause() {
    let service = sccp::SccpMessage::Udts(sccp::UnitDataService {
        return_cause: sccp::ReturnCause::SubsystemFailure,
        called_party: sccp::SccpAddress::with_ssn(sccp::SubsystemNumber::Hlr, None),
        calling_party: sccp::SccpAddress::with_ssn(sccp::SubsystemNumber::Msc, None),
        data: vec![1, 2, 3],
    });
    let msu = Msu { payload: service.encode().unwrap(), ..sample() };
    let m = sua::SuaMessage::decode(&wrap_sua(&msu, 102).unwrap()).unwrap();
    assert_eq!(m.sccp_cause(), Some((0, sccp::ReturnCause::SubsystemFailure.value())));
}

fn titled(digits: &str, ssn: u8) -> sccp::SccpAddress {
    let title = sccp::GlobalTitle::Gt0100 {
        translation_type: 3,
        numbering_plan: 1,
        encoding_scheme: if digits.len() % 2 == 1 { 1 } else { 2 },
        nature_of_address: 4,
        digits: digits.to_string(),
    };
    sccp::SccpAddress::with_gt(title, Some(sccp::SubsystemNumber::from_u8(ssn)))
}

#[test]
fn sua_gives_a_message_back() {
    let units = [
        (
            sccp::SccpMessage::Udt(sccp::UnitData::new(
                titled("15550*#abc", 6),
                titled("155501001", 8),
                vec![1, 2, 3],
            )),
            7,
        ),
        (
            sccp::SccpMessage::Udts(sccp::UnitDataService {
                return_cause: sccp::ReturnCause::SubsystemFailure,
                called_party: sccp::SccpAddress::with_ssn(sccp::SubsystemNumber::Hlr, Some(2000)),
                calling_party: sccp::SccpAddress::with_ssn(sccp::SubsystemNumber::Msc, Some(300)),
                data: vec![],
            }),
            0,
        ),
    ];
    for (message, sls) in units {
        let msu = Msu { payload: message.encode().unwrap(), ..sample() };
        let back = extract_sua(&wrap_sua(&msu, 9).unwrap(), NODE_PC, 2).unwrap();
        assert_eq!(back.payload, msu.payload);
        assert_eq!((back.si, back.ni, back.mp, back.sls), (SI_SCCP, 2, 0, sls));
        match message {
            sccp::SccpMessage::Udt(_) => assert_eq!((back.opc, back.dpc), (0, NODE_PC)),
            _ => assert_eq!((back.opc, back.dpc), (300, 2000)),
        }
    }
}

#[test]
fn sua_writes_what_its_fields_can_hold() {
    let msu = Msu {
        payload: sccp::UnitData::new(titled("15550100", 6), titled("15550170", 8), vec![1])
            .encode()
            .unwrap(),
        ..sample()
    };
    let mut m = Unitdata::decode(&msu.payload).unwrap();
    // As much data as the length field can count.
    m.data = vec![0x5A; 65_531];
    let read = sua::SuaMessage::decode(&sua_of_unitdata(&m, 3, 1).unwrap()).unwrap();
    assert_eq!(read.data(), Some(&m.data[..]));
    assert_eq!((read.sequence_control(), read.protocol_class()), (Some(3), Some(0)));
    // As many digits as the octet that counts them can say.
    let long = "7".repeat(255);
    m.called_party = gt_address(&long, None);
    let read = sua::SuaMessage::decode(&sua_of_unitdata(&m, 3, 1).unwrap()).unwrap();
    assert_eq!(read.destination_address().unwrap().gt_digits(), Some(long.as_str()));
    // A capital reads back small, and what is no address signal is refused.
    m.called_party = gt_address("12A", None);
    let read = sua::SuaMessage::decode(&sua_of_unitdata(&m, 3, 1).unwrap()).unwrap();
    assert_eq!(read.destination_address().unwrap().gt_digits(), Some("12a"));
    m.called_party = gt_address("12x", None);
    assert!(sua_of_unitdata(&m, 3, 1).is_err());
}
