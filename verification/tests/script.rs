use gsm_cap::types::{EventTypeBcsm, MonitorMode};
use gsm_map::application_context as ac;
use gsm_map::op_codes as m;
use gsm_map::operations::auth::{AuthenticationSetList, SendAuthenticationInfoRes};
use gsm_map::operations::location::{CancelLocationRes, PurgeMsRes, UpdateLocationRes};
use gsm_map::operations::mo_forward_sm::MoForwardSmArg;
use gsm_map::operations::mt_forward_sm::MtForwardSmArg;
use gsm_map::operations::ready_for_sm::ReadyForSmRes;
use gsm_map::operations::sri_sm::RoutingInfoForSmRes;
use gsm_map::operations::subscriber_data::{InsertSubscriberDataArg, InsertSubscriberDataRes};
use gsm_map::{SmRpDa, SmRpOa};
use inap::op_codes as i;
use siphon_sigtran::config::{
    Config, ContentAction, ContentMatch, ContentRule, GttMatch, GttRule, NetworkIndicator,
    Node as NodeSettings, OneOrMany, RawFile, RouteTarget, Sccp, DEFAULT_TENANT,
};
use siphon_sigtran::content::operation::Operation;
use siphon_sigtran::content::view::MapView;
use siphon_sigtran::metrics::Metrics;
use siphon_sigtran::point_code::{RawPc, Variant};
use siphon_sigtran::python::builders::{called_party, imsi_arg, isdn_addr, AddrArg};
use siphon_sigtran::python::codec::{Quintuplet, Triplet};
use siphon_sigtran::python::command::{hex, replay, run, CallOutcome, OriginationHandler};
use siphon_sigtran::python::node::{gt_address, StagedComponent};
use siphon_sigtran::python::operations::{
    all_codes, cap_op_table, inap_op_table, map_op_table, operation_op_code, resolve_op_filter,
};
use siphon_sigtran::python::{
    Address, CapAc, DlgCmd, GsmCap, GsmMap, Inap, InapAc, MapAc, MapAcHandle, Node, NodeState,
    PyDialogue, PyIncomingOp, PyPeerTurn, SigtranError, StagedInvoke, StagedResult,
};
use siphon_sigtran::routing::{Inbound, RouteDecision};
use siphon_sigtran::sccp::gtt::GttSelector;
use siphon_sigtran::sccp::message::Unitdata;
use siphon_sigtran::{
    Destination, Dialogue, IncomingOp, PeerComponent, PeerTurn, TerminationHandler,
};

fn digits(s: &str) -> AddrArg {
    AddrArg::Digits(s.to_string())
}

fn raw(b: &[u8]) -> AddrArg {
    AddrArg::Octets(b.to_vec())
}

// ── Addresses ───────────────────────────────────────────────────────────────

#[test]
fn digit_addresses_are_encoded_and_octets_pass() {
    assert_eq!(
        isdn_addr(&digits("15550170")).unwrap(),
        gsm_map::address::international_e164("15550170").unwrap()
    );
    assert_eq!(imsi_arg(&digits("001010000000001")).unwrap(), gsm_map::address::imsi("001010000000001").unwrap());
    assert_eq!(
        called_party(&digits("15550170")).unwrap(),
        inap::address::international_e164("15550170").unwrap()
    );
    for f in [isdn_addr, imsi_arg, called_party] {
        assert_eq!(f(&raw(&[1, 2, 3])).unwrap(), vec![1, 2, 3]);
    }
}

#[test]
fn bad_digits_carry_the_codec_text() {
    let want = gsm_map::address::imsi("12x").unwrap_err().to_string();
    let got = imsi_arg(&digits("12x")).unwrap_err();
    assert!(matches!(&got, SigtranError::Codec(t) if *t == want));
    assert_eq!(got.to_string(), want);
}

#[test]
fn a_global_title_address_is_international_e164() {
    let a = Address { inner: gt_address("15550100", Some(8)) };
    assert_eq!(a.digits(), Some("15550100"));
    assert_eq!(a.ssn(), Some(8));
    let bytes =
        Unitdata::udt(a.inner, gt_address("15550170", None), vec![1]).encode().unwrap();
    match sccp::SccpMessage::decode(&bytes).unwrap().called_party().global_title.clone() {
        sccp::GlobalTitle::Gt0100 {
            translation_type,
            numbering_plan,
            nature_of_address,
            digits,
            ..
        } => {
            assert_eq!((translation_type, numbering_plan, nature_of_address), (0, 1, 4));
            assert_eq!(digits, "15550100");
        }
        other => panic!("unexpected title {other:?}"),
    }
}

// ── MAP builders ────────────────────────────────────────────────────────────

#[test]
fn forward_results_carry_no_parameter() {
    assert_eq!(
        GsmMap.mo_forward_sm_res(),
        StagedResult { op: gsm_map::op_codes::MO_FORWARD_SM, param: None }
    );
    assert_eq!(
        GsmMap.mt_forward_sm_res(),
        StagedResult { op: gsm_map::op_codes::MT_FORWARD_SM, param: None }
    );
}

#[test]
fn routing_info_result_reads_back() {
    let r = GsmMap
        .send_routing_info_for_sm_res(
            &digits("001010000000001"),
            &digits("15550102"),
            Some(vec![9, 8, 7, 6]),
        )
        .unwrap();
    assert_eq!(r.op, gsm_map::op_codes::SEND_ROUTING_INFO_FOR_SM);
    let res: RoutingInfoForSmRes = rasn::ber::decode(&r.param.unwrap()).unwrap();
    assert_eq!(res.imsi.to_vec(), gsm_map::address::imsi("001010000000001").unwrap());
    assert_eq!(
        res.location_info_with_lmsi.network_node_number.to_vec(),
        gsm_map::address::international_e164("15550102").unwrap()
    );
    assert_eq!(res.location_info_with_lmsi.lmsi.unwrap().to_vec(), vec![9, 8, 7, 6]);
    assert!(GsmMap.send_routing_info_for_sm_res(&digits("x"), &digits("1"), None).is_err());
    assert!(GsmMap.send_routing_info_for_sm_res(&digits("1"), &digits("x"), None).is_err());
}

#[test]
fn update_location_result_reads_back() {
    let r = GsmMap.update_location_res(&digits("15550100")).unwrap();
    assert_eq!(r.op, gsm_map::op_codes::UPDATE_LOCATION);
    let res: UpdateLocationRes = rasn::ber::decode(&r.param.unwrap()).unwrap();
    assert_eq!(
        res.hlr_number.to_vec(),
        gsm_map::address::international_e164("15550100").unwrap()
    );
}

#[test]
fn authentication_vectors_read_back() {
    let q = Quintuplet {
        rand: vec![1; 16],
        xres: vec![2; 8],
        ck: vec![3; 16],
        ik: vec![4; 16],
        autn: vec![5; 16],
    };
    let t = Triplet { rand: vec![6; 16], sres: vec![7; 4], kc: vec![8; 8] };
    let r = GsmMap.send_authentication_info_res(Some(vec![q]), Some(vec![t.clone()])).unwrap();
    assert_eq!(r.op, gsm_map::op_codes::SEND_AUTHENTICATION_INFO);
    let res: SendAuthenticationInfoRes = rasn::ber::decode(&r.param.unwrap()).unwrap();
    match res.authentication_set_list {
        // Quintuplets win where both are given.
        Some(AuthenticationSetList::QuintupletList(l)) => {
            assert_eq!(l.len(), 1);
            assert_eq!(l[0].rand.to_vec(), vec![1; 16]);
            assert_eq!(l[0].xres.to_vec(), vec![2; 8]);
            assert_eq!(l[0].ck.to_vec(), vec![3; 16]);
            assert_eq!(l[0].ik.to_vec(), vec![4; 16]);
            assert_eq!(l[0].autn.to_vec(), vec![5; 16]);
        }
        other => panic!("unexpected set {other:?}"),
    }
    let r = GsmMap.send_authentication_info_res(None, Some(vec![t])).unwrap();
    let res: SendAuthenticationInfoRes = rasn::ber::decode(&r.param.unwrap()).unwrap();
    match res.authentication_set_list {
        Some(AuthenticationSetList::TripletList(l)) => {
            assert_eq!(l[0].rand.to_vec(), vec![6; 16]);
            assert_eq!(l[0].sres.to_vec(), vec![7; 4]);
            assert_eq!(l[0].kc.to_vec(), vec![8; 8]);
        }
        other => panic!("unexpected set {other:?}"),
    }
    let r = GsmMap.send_authentication_info_res(None, None).unwrap();
    let res: SendAuthenticationInfoRes = rasn::ber::decode(&r.param.unwrap()).unwrap();
    assert!(res.authentication_set_list.is_none());
}

#[test]
fn empty_results_are_what_the_codec_encodes() {
    let empty = InsertSubscriberDataRes {
        teleservice_list: None,
        bearer_service_list: None,
        odb_general_data: None,
    };
    assert_eq!(
        GsmMap.insert_subscriber_data_res().param.unwrap(),
        rasn::ber::encode(&empty).unwrap()
    );
    assert_eq!(
        GsmMap.insert_subscriber_data_res().op,
        gsm_map::operations::subscriber_data::op_codes::INSERT_SUBSCRIBER_DATA
    );
    assert_eq!(
        GsmMap.cancel_location_res().param.unwrap(),
        rasn::ber::encode(&CancelLocationRes {}).unwrap()
    );
    assert_eq!(GsmMap.cancel_location_res().op, gsm_map::op_codes::CANCEL_LOCATION);
    assert_eq!(
        GsmMap.ready_for_sm_res().param.unwrap(),
        rasn::ber::encode(&ReadyForSmRes {}).unwrap()
    );
    assert_eq!(GsmMap.ready_for_sm_res().op, gsm_map::op_codes::READY_FOR_SM);
}

#[test]
fn purge_result_reads_back() {
    for (a, b) in [(false, false), (true, false), (false, true), (true, true)] {
        let r = GsmMap.purge_ms_res(a, b).unwrap();
        assert_eq!(r.op, gsm_map::op_codes::PURGE_MS);
        let res: PurgeMsRes = rasn::ber::decode(&r.param.unwrap()).unwrap();
        assert_eq!((res.freeze_tmsi.is_some(), res.freeze_p_tmsi.is_some()), (a, b));
    }
}

#[test]
fn insert_subscriber_data_reads_back() {
    let i = GsmMap
        .insert_subscriber_data(Some(digits("001010000000001")), Some(raw(&[0x91, 0x51])))
        .unwrap();
    assert_eq!(i.op, gsm_map::operations::subscriber_data::op_codes::INSERT_SUBSCRIBER_DATA);
    let arg: InsertSubscriberDataArg = rasn::ber::decode(&i.arg.unwrap()).unwrap();
    assert_eq!(arg.imsi.unwrap().to_vec(), gsm_map::address::imsi("001010000000001").unwrap());
    assert_eq!(arg.msisdn.unwrap().to_vec(), vec![0x91, 0x51]);
    let i = GsmMap.insert_subscriber_data(None, None).unwrap();
    let arg: InsertSubscriberDataArg = rasn::ber::decode(&i.arg.unwrap()).unwrap();
    assert!(arg.imsi.is_none() && arg.msisdn.is_none());
}

#[test]
fn forward_invokes_read_back_through_the_fields() {
    let i = GsmMap
        .mo_forward_sm(
            &digits("15550199"),
            &digits("15550142"),
            vec![1, 2, 3],
            Some(digits("001010000000001")),
        )
        .unwrap();
    assert_eq!(i.op, gsm_map::op_codes::MO_FORWARD_SM);
    let bytes = i.arg.unwrap();
    let arg: MoForwardSmArg = rasn::ber::decode(&bytes).unwrap();
    let sc = gsm_map::address::international_e164("15550199").unwrap();
    let ms = gsm_map::address::international_e164("15550142").unwrap();
    assert!(matches!(&arg.sm_rp_da, SmRpDa::ServiceCentreAddressDa(b) if b.to_vec() == sc));
    assert!(matches!(&arg.sm_rp_oa, SmRpOa::MsIsdn(b) if b.to_vec() == ms));
    assert_eq!(arg.imsi.unwrap().to_vec(), gsm_map::address::imsi("001010000000001").unwrap());
    let op = incoming(46, Some(bytes));
    assert_eq!(op.sm_rp_da(), Some(sc.clone()));
    assert_eq!(op.sm_rp_oa(), Some(ms));
    assert_eq!(op.sm_rp_ui(), Some(vec![1, 2, 3]));

    let i = GsmMap
        .mt_forward_sm(&digits("001010000000001"), &digits("15550199"), vec![4, 5], true)
        .unwrap();
    assert_eq!(i.op, gsm_map::op_codes::MT_FORWARD_SM);
    let bytes = i.arg.unwrap();
    let arg: MtForwardSmArg = rasn::ber::decode(&bytes).unwrap();
    assert!(arg.more_messages_to_send.is_some());
    let op = incoming(44, Some(bytes));
    assert_eq!(op.sm_rp_da(), Some(gsm_map::address::imsi("001010000000001").unwrap()));
    assert_eq!(op.sm_rp_oa(), Some(sc));
    assert_eq!(op.sm_rp_ui(), Some(vec![4, 5]));
    assert_eq!(incoming(44, Some(vec![0xFF])).sm_rp_ui(), None);
    assert_eq!(incoming(44, None).sm_rp_oa(), None);
}

fn incoming(code: i64, argument: Option<Vec<u8>>) -> PyIncomingOp {
    PyIncomingOp::from_op(&IncomingOp {
        operation_code: code,
        invoke_id: 1,
        argument,
        application_context: None,
        called_ssn: 6,
        calling_gt: Some("15550170".into()),
        called_gt: None,
    })
}

// ── CAP and INAP builders ───────────────────────────────────────────────────

#[test]
fn cap_invokes_are_what_the_codec_encodes() {
    let one = inap::address::international_e164("15550177").unwrap();
    let i = GsmCap.connect(&vec![digits("15550177"), raw(&[1, 2])]).unwrap();
    assert_eq!(i.op, gsm_cap::op_codes::CONNECT);
    let arg: gsm_cap::operations::ConnectArg = gsm_cap::decode(&i.arg.unwrap()).unwrap();
    let dra: Vec<Vec<u8>> =
        arg.destination_routing_address.iter().map(|b| b.to_vec()).collect();
    assert_eq!(dra, vec![one, vec![1, 2]]);
    assert!(GsmCap.connect(&vec![digits("15550177"), digits("zz")]).is_err());

    let i = GsmCap.release_call(vec![0x80, 0x90]).unwrap();
    assert_eq!(i.op, gsm_cap::op_codes::RELEASE_CALL);
    let arg: gsm_cap::operations::ReleaseCallArg = gsm_cap::decode(&i.arg.unwrap()).unwrap();
    assert_eq!(gsm_cap::encode(&arg).unwrap(), GsmCap.release_call(vec![0x80, 0x90]).unwrap().arg.unwrap());

    let i = GsmCap.apply_charging(vec![1, 2, 3], Some(vec![1])).unwrap();
    assert_eq!(i.op, gsm_cap::op_codes::APPLY_CHARGING);
    let arg: gsm_cap::operations::ApplyChargingArg = gsm_cap::decode(&i.arg.unwrap()).unwrap();
    assert_eq!(arg.ach_billing_charging_characteristics.to_vec(), vec![1, 2, 3]);

    assert_eq!(
        GsmCap.continue_(),
        StagedInvoke { op: gsm_cap::op_codes::CONTINUE, arg: None }
    );
}

#[test]
fn armed_events_read_back() {
    let i = GsmCap.request_report_bcsm_event(&vec![(7, 0), (9, 1), (18, 2)]).unwrap();
    assert_eq!(i.op, gsm_cap::op_codes::REQUEST_REPORT_BCSM_EVENT);
    let arg: gsm_cap::operations::RequestReportBcsmEventArg =
        gsm_cap::decode(&i.arg.unwrap()).unwrap();
    let got: Vec<(EventTypeBcsm, MonitorMode)> = arg
        .bcsm_events
        .iter()
        .map(|e| (e.event_type_bcsm.clone(), e.monitor_mode.clone()))
        .collect();
    assert_eq!(
        got,
        vec![
            (EventTypeBcsm::OAnswer, MonitorMode::Interrupted),
            (EventTypeBcsm::ODisconnect, MonitorMode::NotifyAndContinue),
            (EventTypeBcsm::TAbandon, MonitorMode::Transparent)
        ]
    );
    let i = Inap.request_report_bcsm_event(&vec![(7, 0), (2, 1)]).unwrap();
    assert_eq!(i.op, inap::op_codes::REQUEST_REPORT_BCSM_EVENT);
    let arg: inap::operations::RequestReportBcsmEventArg =
        inap::decode(&i.arg.unwrap()).unwrap();
    assert_eq!(arg.bcsm_events.len(), 2);
    assert_eq!(arg.bcsm_events[1].event_type_bcsm, inap::types::EventTypeBcsm::CollectedInfo);
}

#[test]
fn unknown_events_and_modes_are_refused() {
    let e = GsmCap.request_report_bcsm_event(&vec![(7, 0), (8, 0)]).unwrap_err();
    assert!(matches!(e, SigtranError::UnknownEventType(8)));
    assert_eq!(e.to_string(), "unknown EventTypeBCSM 8");
    let e = Inap.request_report_bcsm_event(&vec![(7, 3)]).unwrap_err();
    assert!(matches!(e, SigtranError::UnknownMonitorMode(3)));
    assert_eq!(e.to_string(), "unknown MonitorMode 3");
    for v in 0..20i64 {
        let known = [2, 3, 4, 5, 6, 7, 9, 10, 12, 13, 14, 15, 17, 18].contains(&v);
        assert_eq!(GsmCap.request_report_bcsm_event(&vec![(v, 0)]).is_ok(), known, "{v}");
    }
}

#[test]
fn inap_invokes_read_back() {
    let i = Inap.connect(&vec![digits("15550177")], Some(digits("15550100"))).unwrap();
    assert_eq!(i.op, inap::op_codes::CONNECT);
    let arg: inap::operations::ConnectArg = inap::decode(&i.arg.unwrap()).unwrap();
    assert_eq!(
        arg.original_called_party_id.unwrap().to_vec(),
        inap::address::international_e164("15550100").unwrap()
    );
    let i = Inap.release_call(vec![0x80, 0x90]).unwrap();
    assert_eq!(i.op, inap::op_codes::RELEASE_CALL);
    let arg: inap::operations::ReleaseCallArg = inap::decode(&i.arg.unwrap()).unwrap();
    assert_eq!(arg.0.to_vec(), vec![0x80, 0x90]);
    let i = Inap.apply_charging(vec![1, 2], Some(vec![2])).unwrap();
    let arg: inap::operations::ApplyChargingArg = inap::decode(&i.arg.unwrap()).unwrap();
    assert!(matches!(arg.party_to_charge, Some(inap::types::LegId::SendingSideId(b)) if b.to_vec() == vec![2]));
    let i = Inap.play_announcement(vec![0xA0, 0x00], Some(false), Some(true)).unwrap();
    assert_eq!(i.op, inap::op_codes::PLAY_ANNOUNCEMENT);
    let arg: inap::operations::PlayAnnouncementArg = inap::decode(&i.arg.unwrap()).unwrap();
    assert_eq!(arg.disconnect_from_ip_forbidden, Some(false));
    assert_eq!(arg.request_announcement_complete, Some(true));
    let i = Inap.prompt_and_collect_user_information(vec![0xA0, 0x00], None, Some(vec![7])).unwrap();
    assert_eq!(i.op, inap::op_codes::PROMPT_AND_COLLECT_USER_INFORMATION);
    let arg: inap::operations::PromptAndCollectUserInformationArg =
        inap::decode(&i.arg.unwrap()).unwrap();
    assert_eq!(arg.collected_info.to_vec(), vec![0xA0, 0x00]);
    assert_eq!(arg.information_to_send.unwrap().to_vec(), vec![7]);
    assert_eq!(Inap.continue_(), StagedInvoke { op: inap::op_codes::CONTINUE, arg: None });
}

#[test]
fn connect_to_resource_names_one_address() {
    let i = Inap.connect_to_resource(None).unwrap();
    assert_eq!(i.op, inap::op_codes::CONNECT_TO_RESOURCE);
    let arg: inap::operations::ConnectToResourceArg = inap::decode(&i.arg.unwrap()).unwrap();
    assert!(arg.resource_address_none.is_some() && arg.resource_address_ipv4.is_none());
    let i = Inap.connect_to_resource(Some(vec![3, 4])).unwrap();
    let arg: inap::operations::ConnectToResourceArg = inap::decode(&i.arg.unwrap()).unwrap();
    assert!(arg.resource_address_none.is_none());
    assert_eq!(arg.resource_address_ipv4.unwrap().to_vec(), vec![3, 4]);
}

#[test]
fn application_contexts_are_the_published_ones() {
    let arcs = |o: rasn::types::ObjectIdentifier| -> Vec<u32> { o.iter().copied().collect() };
    assert_eq!(MapAc.short_msg_mt_relay().arcs, arcs(ac::short_msg_mt_relay_context(ac::V3)));
    assert_eq!(MapAc.short_msg_gateway().arcs, arcs(ac::short_msg_gateway_context(ac::V3)));
    assert_eq!(MapAc.short_msg_mo_relay().arcs, arcs(ac::short_msg_mo_relay_context(ac::V3)));
    assert_eq!(InapAc.ssp_to_scp().arcs, arcs(inap::application_context::cs1_ssp_to_scp()));
    assert_eq!(CapAc.gsm_ssf_scf().arcs, vec![0, 4, 0, 0, 1, 21, 3, 4]);
}

// ── Operation names ─────────────────────────────────────────────────────────

#[test]
fn operation_tables_hold_the_published_codes() {
    assert_eq!(
        all_codes(&map_op_table()),
        vec![
            m::MO_FORWARD_SM,
            m::MT_FORWARD_SM,
            m::SEND_ROUTING_INFO_FOR_SM,
            m::REPORT_SM_DELIVERY_STATUS,
            m::READY_FOR_SM,
            m::UPDATE_LOCATION,
            m::CANCEL_LOCATION,
            m::PURGE_MS,
            m::SEND_AUTHENTICATION_INFO,
            gsm_map::operations::subscriber_info::op_codes::PROVIDE_SUBSCRIBER_INFO,
        ]
    );
    assert_eq!(
        all_codes(&cap_op_table()),
        vec![gsm_cap::op_codes::INITIAL_DP, gsm_cap::op_codes::EVENT_REPORT_BCSM]
    );
    assert_eq!(
        all_codes(&inap_op_table()),
        vec![
            i::INITIAL_DP,
            i::EVENT_REPORT_BCSM,
            i::APPLY_CHARGING_REPORT,
            i::ASSIST_REQUEST_INSTRUCTIONS,
            i::CALL_INFORMATION_REPORT,
            i::SPECIALIZED_RESOURCE_REPORT,
        ]
    );
}

#[test]
fn filters_resolve_names_in_order() {
    let t = map_op_table();
    assert_eq!(resolve_op_filter("mo-forward-sm", &t).unwrap(), vec![46]);
    assert_eq!(resolve_op_filter(" mo-forward-sm | mt-forward-sm ", &t).unwrap(), vec![46, 44]);
    assert_eq!(resolve_op_filter("|sri-sm||", &t).unwrap(), vec![45]);
}

#[test]
fn filters_refuse_unknown_and_empty_names() {
    let t = cap_op_table();
    let e = resolve_op_filter("initial-dp|nope", &t).unwrap_err();
    assert_eq!(
        e.to_string(),
        "unknown operation \"nope\" in on_operation filter; known: initial-dp, event-report-bcsm"
    );
    for f in ["", " ", "|", " | "] {
        let e = resolve_op_filter(f, &t).unwrap_err();
        assert!(matches!(e, SigtranError::EmptyFilter));
        assert_eq!(e.to_string(), "empty on_operation filter");
    }
}

#[test]
fn one_vocabulary_spans_all_namespaces() {
    assert_eq!(operation_op_code("sri-sm"), Some(45));
    assert_eq!(operation_op_code("initial-dp"), Some(0));
    assert_eq!(operation_op_code("apply-charging-report"), Some(inap::op_codes::APPLY_CHARGING_REPORT));
    assert_eq!(operation_op_code("connect"), Some(Operation::Connect.op_code()));
    assert_eq!(
        operation_op_code("insert-subscriber-data"),
        Some(Operation::InsertSubscriberData.op_code())
    );
    assert_eq!(operation_op_code("no-such"), None);
}

// ── The dialogue handle ─────────────────────────────────────────────────────

fn dialogue() -> Dialogue {
    Dialogue::responder(
        vec![0x80, 0, 0, 1],
        vec![1, 2, 3, 4],
        vec![0, 4, 0, 0, 1, 0, 20, 3],
        9,
        siphon_sigtran::dialogue::handle::Addressing {
            out_called: gt_address("15550170", Some(6)),
            out_calling: gt_address("15550100", Some(6)),
            opc: 1000,
            dpc: 2000,
            ni: 2,
            sls: 0,
        },
    )
}

fn recorded() -> PyDialogue {
    let mut h = PyDialogue::of(&dialogue());
    h.invoke(&StagedInvoke { op: 7, arg: None });
    h.reply(&StagedResult { op: 45, param: Some(vec![1]) });
    h.reply_to(3, &StagedResult { op: 2, param: None });
    h.error(4, 27);
    h.send();
    h.end();
    h.abort();
    h
}

#[test]
fn the_handle_records_commands_in_order() {
    let mut h = recorded();
    assert_eq!(h.otid(), &vec![0x80, 0, 0, 1]);
    assert_eq!(h.dtid(), &vec![1, 2, 3, 4]);
    assert_eq!(
        h.take(),
        vec![
            DlgCmd::Invoke { op: 7, arg: None },
            DlgCmd::Reply { op: 45, result: Some(vec![1]) },
            DlgCmd::ReplyTo { id: 3, op: 2, result: None },
            DlgCmd::Error { id: 4, code: 27 },
            DlgCmd::Send,
            DlgCmd::End,
            DlgCmd::Abort,
        ]
    );
    assert!(h.take().is_empty());
}

#[test]
fn replay_does_what_the_commands_say() {
    let mut by_hand = dialogue();
    by_hand.invoke(7, None);
    by_hand.reply(45, Some(vec![1]));
    by_hand.send();
    by_hand.end();
    let mut d = dialogue();
    replay(
        &mut d,
        vec![
            DlgCmd::Invoke { op: 7, arg: None },
            DlgCmd::Reply { op: 45, result: Some(vec![1]) },
            DlgCmd::Send,
            DlgCmd::End,
        ],
    );
    assert!(d.is_closed());
    let a = siphon_sigtran::dialogue::handle::Addressing {
        out_called: gt_address("15550170", Some(6)),
        out_calling: gt_address("15550100", Some(6)),
        opc: 1000,
        dpc: 2000,
        ni: 2,
        sls: 0,
    };
    let frames = siphon_sigtran::dialogue::engine::frames(&d, &a);
    assert_eq!(frames, siphon_sigtran::dialogue::engine::frames(&by_hand, &a));
    assert_eq!(frames.len(), 2);
}

#[test]
fn a_handler_that_raised_before_returning_stages_nothing() {
    let mut d = dialogue();
    run(&mut d, &mut recorded(), CallOutcome::NotCalled);
    assert!(!d.is_closed());
    let mut d = dialogue();
    run(&mut d, &mut recorded(), CallOutcome::Raised);
    assert!(!d.is_closed());
    let mut d = dialogue();
    run(&mut d, &mut recorded(), CallOutcome::Returned);
    assert!(d.is_closed());
}

#[test]
fn hex_is_two_digits_an_octet() {
    assert_eq!(hex(&vec![]), "");
    assert_eq!(hex(&vec![0x00, 0x0f, 0xa5, 0xff]), "000fa5ff");
}

#[test]
fn a_peer_turn_shows_its_first_components() {
    let t = PyPeerTurn::from_peer(&PeerTurn {
        is_end: true,
        components: vec![
            PeerComponent::Invoke { invoke_id: 5, operation_code: 8, argument: Some(vec![1]) },
            PeerComponent::Result { invoke_id: 6, operation_code: Some(7), parameter: Some(vec![2]) },
            PeerComponent::Error { invoke_id: 7, error_code: 34 },
        ],
    });
    assert!(t.is_peer_turn() && t.is_end());
    assert_eq!(t.operation_code(), Some(8));
    assert_eq!(t.invoke_id(), Some(5));
    assert!(t.is_result() && t.is_invoke() && t.is_error());
    assert_eq!(t.error_code(), Some(34));
    assert_eq!(t.result(), Some(vec![2]));
    assert_eq!(t.argument(), Some(vec![1]));
    let empty = PyPeerTurn::from_peer(&PeerTurn { is_end: false, components: vec![] });
    assert!(!empty.is_end() && !empty.is_result() && !empty.is_invoke() && !empty.is_error());
    assert_eq!((empty.operation_code(), empty.invoke_id()), (None, None));
    assert!(!incoming(45, None).is_peer_turn());
}

#[test]
fn initial_detection_points_are_read() {
    let idp = inap::operations::InitialDpArg {
        service_key: 42.into(),
        called_party_number: Some(vec![0x84, 0x10, 0x51].into()),
        calling_party_number: Some(vec![0x84, 0x13, 0x15].into()),
        calling_partys_category: None,
        ip_ssp_capabilities: None,
        ip_available: None,
        location_number: None,
        original_called_party_id: None,
        high_layer_compatibility: None,
        service_interaction_indicators: None,
        additional_calling_party_number: None,
        forward_call_indicators: None,
        event_type_bcsm: None,
        redirecting_party_id: None,
    };
    let op = incoming(0, Some(inap::encode(&idp).unwrap()));
    assert_eq!(op.inap_service_key(), Some(42));
    assert_eq!(op.inap_called_party_number(), Some(vec![0x84, 0x10, 0x51]));
    assert_eq!(op.inap_calling_party_number(), Some(vec![0x84, 0x13, 0x15]));
    let idp = gsm_cap::operations::InitialDpArg {
        service_key: 42.into(),
        called_party_number: Some(vec![0x84, 0x10, 0x99].into()),
        calling_party_number: None,
        calling_partys_category: None,
        original_called_party_id: None,
        event_type_bcsm: None,
        redirecting_party_id: None,
        imsi: None,
        location_information: None,
        call_reference_number: None,
        msc_address: None,
        called_party_bcd_number: None,
        time_and_timezone: None,
    };
    let op = incoming(0, Some(gsm_cap::encode(&idp).unwrap()));
    assert_eq!(op.called_party_number(), Some(vec![0x84, 0x10, 0x99]));
    assert_eq!(incoming(0, Some(vec![1, 2, 3])).inap_service_key(), None);
    assert_eq!(incoming(0, Some(vec![1, 2, 3])).called_party_number(), None);
    assert_eq!(incoming(0, None).called_party_number(), None);
}

// ── The node ────────────────────────────────────────────────────────────────

fn config(ssns: Vec<u8>) -> Config {
    Config::parse(RawFile {
        node: Some(NodeSettings {
            point_code: RawPc(1000),
            variant: Variant::Itu,
            network_indicator: NetworkIndicator::National,
        }),
        associations: vec![],
        application_servers: vec![],
        linksets: vec![],
        mtp3_routes: vec![],
        sccp: Some(Sccp { local_ssns: ssns, ..Default::default() }),
        content_routing: None,
        isup_screening: None,
        tcap: None,
        tenants: None,
    })
    .unwrap()
}

fn state() -> NodeState<OriginationHandler> {
    NodeState::from_config(&config(vec![6, 8]))
}

fn to_us(cdpa: &str, view: Option<MapView>) -> Inbound {
    Inbound {
        dpc: 1000,
        cdpa: Some(GttSelector::from_digits(cdpa)),
        called_ssn: None,
        view,
    }
}

#[test]
fn a_script_adds_routes() {
    let mut n = state();
    let mut m = Metrics::new();
    n.routes_add(2000, None, Some("transit".into()), 3).unwrap();
    n.router.note_linkset_up(DEFAULT_TENANT, "transit");
    let got = n.router.route(&mut m, &Inbound { dpc: 2000, ..Default::default() });
    assert_eq!(got, RouteDecision::Route { via: Destination::Linkset("transit".into()) });
    let both = n.routes_add(1, Some("a".into()), Some("b".into()), 1).unwrap_err();
    assert_eq!(both.to_string(), "ss7.routes.add: pass exactly one of as_ / linkset");
    let none = n.routes_add(1, None, None, 1).unwrap_err();
    assert_eq!(none.to_string(), "ss7.routes.add: pass one of as_ / linkset");
    n.tenant = "nobody".into();
    let e = n.routes_add(1, Some("a".into()), None, 1).unwrap_err();
    assert!(matches!(e, SigtranError::NoDefaultTenant));
    assert_eq!(e.to_string(), "no default tenant");
}

#[test]
fn a_script_adds_translations_in_front() {
    let mut n = state();
    let mut m = Metrics::new();
    n.push_rule(GttRule {
        match_: GttMatch { gt_prefix: Some("1555".into()), ..Default::default() },
        to: RouteTarget { local: Some(true), ..Default::default() },
    })
    .unwrap();
    assert_eq!(n.router.route(&mut m, &to_us("15550100", None)), RouteDecision::Local);
    n.add_prefix("155501", 2006, 6).unwrap();
    assert_eq!(
        n.router.route(&mut m, &to_us("15550100", None)),
        RouteDecision::RouteTo { dpc: 2006, ssn: 6, via: None }
    );
    assert_eq!(n.router.route(&mut m, &to_us("15559", None)), RouteDecision::Local);
}

#[test]
fn a_script_adds_content_rules_and_members() {
    let mut n = state();
    let mut m = Metrics::new();
    n.content_add_rule(&ContentRule {
        name: "steer".into(),
        match_: ContentMatch {
            operation: Some(OneOrMany::One("sri-sm".into())),
            cgpa_gt_in: Some("home-subs".into()),
            ..Default::default()
        },
        action: ContentAction { screen: Some(true), ..Default::default() },
    })
    .unwrap();
    let view = MapView {
        operation: Some(Operation::SriSm),
        cgpa_gt: Some("15550199".into()),
        cdpa_gt: None,
        imsi: None,
        msisdn: None,
    };
    let before = n.router.route(&mut m, &to_us("15550100", Some(view.clone())));
    assert_eq!(before, RouteDecision::Drop { reason: "no GTT translation".into() });
    n.address_table_add("home-subs", "15550199").unwrap();
    let after = n.router.route(&mut m, &to_us("15550100", Some(view)));
    assert_eq!(after, RouteDecision::Drop { reason: "screened by content rule".into() });
}

#[test]
fn the_default_node_is_empty() {
    let n: NodeState<OriginationHandler> = NodeState::default_node();
    assert_eq!(n.tenant, DEFAULT_TENANT);
    assert_eq!(n.owned_ssns(), vec![6, 8, 146]);
    assert_eq!(n.owned_ssns()[2], sccp::SubsystemNumber::Cap.value());
    assert_eq!(n.router.node_point_code(DEFAULT_TENANT), Some(1));
    assert_eq!(n.engine.open_dialogues(), 0);
    assert!(!n.router.is_reachable(DEFAULT_TENANT, 1));
    assert_eq!(n.router.node_point_code("other"), None);
    assert_eq!(state().owned_ssns(), vec![6, 8]);
}

/// Answers every operation with an empty result.
#[derive(Clone)]
struct Answers;

impl TerminationHandler for Answers {
    fn on_begin(&self, dialogue: &mut Dialogue, op: &IncomingOp) {
        dialogue.reply(op.operation_code, None);
        dialogue.end();
    }
}

#[test]
fn a_handler_serves_every_owned_subsystem() {
    let mut m = Metrics::new();
    for catch_all in [true, false] {
        let mut n = Node { state: NodeState::from_config(&config(vec![6, 8])) };
        n.state.register_termination(45, &Answers, catch_all);
        for ssn in [6u8, 8, 7] {
            let begin =
                Node::<Answers>::assemble_begin("sri-sm", "15550100", ssn, "15550170", None, None)
                    .unwrap();
            let out = n.deliver(&mut m, begin, 2000, 1000, 0);
            let d = Node::<Answers>::decode(&out[0]).unwrap();
            if ssn == 7 {
                assert_eq!(d.kind, "abort");
            } else {
                assert_eq!((d.kind, d.result), ("end", Some((45, None))));
            }
        }
    }
}

#[test]
fn a_node_originates_under_its_own_point_code() {
    let mut m = Metrics::new();
    let mut n = Node { state: state() };
    let out = n.originate(
        &mut m,
        OriginationHandler { op: 44, arg: Some(vec![0x30, 0x00]) },
        "15550170",
        8,
        "15550100",
        8,
        2002,
        &MapAc.short_msg_mt_relay(),
        None,
        0,
        0,
    );
    assert_eq!(out.len(), 1);
    let d = Node::<OriginationHandler>::decode(&out[0]).unwrap();
    assert_eq!(d.kind, "begin");
    assert_eq!(d.app_context, Some(MapAc.short_msg_mt_relay().arcs));
    assert_eq!(n.state.engine.open_dialogues(), 1);
    let req = n.state.origination(
        "15550170",
        8,
        "15550100",
        8,
        2002,
        &MapAcHandle { arcs: vec![0, 4] },
        None,
        3,
    );
    assert_eq!((req.opc, req.dpc, req.ni, req.sls), (1000, 2002, 2, 3));
    assert_eq!(req.called.global_title.digits(), Some("15550170"));
    assert_eq!(req.calling.global_title.digits(), Some("15550100"));
    let req = n.state.origination("1", 8, "2", 8, 5, &MapAcHandle { arcs: vec![0, 4] }, Some(77), 0);
    assert_eq!(req.opc, 77);
}

#[test]
fn assembled_messages_read_back() {
    let c = Node::<Answers>::assemble_continue(
        vec![1, 2, 3, 4],
        &StagedComponent::Invoke(StagedInvoke { op: 7, arg: Some(vec![0x05, 0x00]) }),
        9,
        None,
    )
    .unwrap();
    let d = Node::<Answers>::decode(&c).unwrap();
    assert_eq!((d.kind, d.otid, d.dtid), ("continue", vec![0x22; 4], vec![1, 2, 3, 4]));
    assert_eq!(d.invokes, vec![(7, Some(vec![0x05, 0x00]))]);
    let e = Node::<Answers>::assemble_end(
        vec![1, 2, 3, 4],
        Some(StagedComponent::Result(StagedResult { op: 7, param: None })),
        9,
    )
    .unwrap();
    let d = Node::<Answers>::decode(&e).unwrap();
    assert_eq!((d.kind, d.result), ("end", Some((7, None))));
    let udt = Unitdata::decode(&e).unwrap();
    assert_eq!(udt.called_party.global_title.digits(), Some("15550100"));
    assert_eq!(udt.calling_party.global_title.digits(), Some("15550170"));
}

#[test]
fn assembling_and_decoding_refuse() {
    let e = Node::<Answers>::assemble_begin("nope", "1", 6, "2", None, None).unwrap_err();
    assert!(matches!(&e, SigtranError::NoSuchOperation(n) if n == "nope"));
    assert_eq!(e.to_string(), "unknown operation `nope`");
    let want = sccp::SccpMessage::decode(&[0xFF]).unwrap_err().to_string();
    let e = Node::<Answers>::decode(&vec![0xFF]).unwrap_err();
    assert_eq!(e.to_string(), want);
    let mut long = Unitdata::udt(gt_address("15550100", None), gt_address("15550170", None), vec![1, 2]);
    let e = Node::<Answers>::decode(&long.encode().unwrap()).unwrap_err();
    let want = tcap::decode(&[1, 2]).unwrap_err().to_string();
    assert!(matches!(&e, SigtranError::Codec(t) if *t == want));
    assert_eq!(e.to_string(), want);
    long.form = siphon_sigtran::sccp::message::SccpForm::Extended;
    long.hop_counter = Some(5);
    let e = Node::<Answers>::decode(&long.encode().unwrap()).unwrap_err();
    assert!(matches!(e, SigtranError::NotUnitdata));
    assert_eq!(e.to_string(), "payload is not an SCCP UDT");
    // A title that has no encoding: the codec's own text comes back.
    assert!(matches!(
        Node::<Answers>::assemble_begin("sri-sm", "15x", 6, "2", None, None),
        Err(SigtranError::Codec(_))
    ));
}

#[test]
fn an_id_shows_only_where_its_kind_carries_one() {
    let id = vec![9, 8, 7, 6];
    let shown = |m: tcap::TcapMessage| {
        let data = tcap::encode(&m).unwrap();
        let udt = Unitdata::udt(gt_address("15550100", None), gt_address("15550170", None), data);
        let d = Node::<Answers>::decode(&udt.encode().unwrap()).unwrap();
        (d.kind, d.otid, d.dtid)
    };
    let begin = tcap::TcapMessage::Begin(tcap::Begin {
        otid: id.clone().into(),
        dialogue_portion: None,
        components: None,
    });
    assert_eq!(shown(begin), ("begin", id.clone(), vec![]));
    let both = tcap::TcapMessage::Continue(tcap::Continue {
        otid: id.clone().into(),
        dtid: vec![1].into(),
        dialogue_portion: None,
        components: None,
    });
    assert_eq!(shown(both), ("continue", id.clone(), vec![1]));
    let end = tcap::TcapMessage::End(tcap::End {
        dtid: id.clone().into(),
        dialogue_portion: None,
        components: None,
    });
    assert_eq!(shown(end), ("end", vec![], id));
}

#[test]
fn white_space_around_a_name_is_the_unicode_property() {
    let t = map_op_table();
    for c in (0..=0x3100u32).filter_map(char::from_u32).filter(|c| *c != '|') {
        let name = format!("{c}sri-sm{c}");
        assert_eq!(resolve_op_filter(&name, &t).is_ok(), c.is_whitespace(), "{:?}", c);
    }
}

#[test]
fn digits_are_packed_two_to_an_octet() {
    assert_eq!(isdn_addr(&digits("15550100999")).unwrap(), vec![0x91, 0x51, 0x55, 0x10, 0x00, 0x99, 0xF9]);
    assert_eq!(isdn_addr(&digits("")).unwrap(), vec![0x91]);
    assert_eq!(imsi_arg(&digits("0*#aBc1")).unwrap(), vec![0xA0, 0xCB, 0xED, 0xF1]);
    assert_eq!(called_party(&digits("155501999")).unwrap(), vec![0x84, 0x10, 0x51, 0x55, 0x10, 0x99, 0x09]);
    assert_eq!(called_party(&digits("15550199")).unwrap(), vec![0x04, 0x10, 0x51, 0x55, 0x10, 0x99]);
    for bad in ["12d", "1 2", "+1", "1\u{e9}"] {
        assert_eq!(
            isdn_addr(&digits(bad)).unwrap_err().to_string(),
            gsm_map::address::international_e164(bad).unwrap_err().to_string()
        );
        assert_eq!(
            imsi_arg(&digits(bad)).unwrap_err().to_string(),
            gsm_map::address::imsi(bad).unwrap_err().to_string()
        );
    }
    for bad in ["12a", "*", "\u{663}"] {
        assert_eq!(
            called_party(&digits(bad)).unwrap_err().to_string(),
            inap::address::international_e164(bad).unwrap_err().to_string()
        );
    }
}
