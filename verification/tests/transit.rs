use m3ua::{M3uaMessage, ProtocolData};
use siphon_sigtran::config::{
    Adaptation, ApplicationServer, Association, Config, ContentAction, ContentMatch,
    ContentProtocol, ContentRouting, ContentRule, GroupMember, GroupMode, GttGroup, GttMatch, GttRule,
    IsupScreening, Link, Linkset,
    Mtp3Route, NetworkIndicator, Node, OneOrMany, RawFile, Role, RouteTarget, Sccp, ScreenAction,
    ScreenMatch, ScreenRule, TrafficMode, DEFAULT_TENANT,
};
use siphon_sigtran::isup::Screened;
use siphon_sigtran::metrics::{
    gtt_errors, gtt_translations, isup_screened, loops_detected, msu_total, mtp3mg_events, Dir,
    GttError, GttResultKind, LoopKind, Metrics, Mtp3MgKind,
    ScreenReason,
};
use siphon_sigtran::point_code::{RawPc, Variant};
use siphon_sigtran::transport::association::{
    asp_opening, link_opening, receive_m3ua, receive_sua, send_status, AspState, LinkStatus,
    M2paState,
};
use siphon_sigtran::transport::forward::{
    dispatch, inbound_from_msu, selector_from_gt, DropCause, Frame, Outcome, PPID_M2PA, PPID_M3UA,
};
use siphon_sigtran::transport::framing::{
    extract_m2pa, extract_m3ua, extract_sua, wrap_m2pa, wrap_m3ua, wrap_sua, PPID_SUA, SI_ISUP,
    SI_SCCP,
};
use siphon_sigtran::transport::node::{
    asp_receive, connected, disconnect, link_receive, link_state, receive_m2pa, resolve_egress,
    send_originated, send_reply, send_sweep_abort, set_active, sg_receive, LinkState,
};
use siphon_sigtran::transport::wire::{m3ua_control, sua_control, Control};
use siphon_sigtran::transport::{Msu, Registry};
use siphon_sigtran::{Destination, RouteDecision, Router};

fn assoc(id: &str, adaptation: Adaptation, adjacent: Option<u32>) -> Association {
    Association {
        id: id.into(),
        adaptation,
        role: Role::Server,
        addrs: vec!["127.0.0.1".into()],
        port: 2905,
        adjacent_pc: adjacent.map(RawPc),
    }
}

fn server(name: &str, traffic_mode: TrafficMode, rc: u32, asps: &[&str]) -> ApplicationServer {
    ApplicationServer {
        name: name.into(),
        traffic_mode,
        routing_context: rc,
        asps: asps.iter().map(|s| s.to_string()).collect(),
    }
}

fn to_server(dpc: u32, name: &str, priority: u8) -> Mtp3Route {
    Mtp3Route { dpc: RawPc(dpc), as_: Some(name.into()), linkset: None, priority }
}

fn file() -> RawFile {
    RawFile {
        node: Some(Node {
            point_code: RawPc(1000),
            variant: Variant::Itu,
            network_indicator: NetworkIndicator::National,
        }),
        associations: vec![
            assoc("hlr-a", Adaptation::M3ua, None),
            assoc("hlr-b", Adaptation::M3ua, None),
            assoc("msc", Adaptation::M3ua, None),
            assoc("gmsc", Adaptation::Sua, None),
            assoc("xit", Adaptation::M2pa, Some(3000)),
        ],
        application_servers: vec![
            server("hlr", TrafficMode::Loadshare, 100, &["hlr-a", "hlr-b"]),
            server("msc", TrafficMode::Override, 101, &["msc"]),
            server("gw", TrafficMode::Broadcast, 102, &["gmsc"]),
        ],
        linksets: vec![Linkset {
            name: "transit".into(),
            links: vec![Link { assoc: "xit".into(), slc: 0 }],
        }],
        mtp3_routes: vec![
            to_server(2000, "hlr", 1),
            Mtp3Route {
                dpc: RawPc(2000),
                as_: None,
                linkset: Some("transit".into()),
                priority: 2,
            },
            to_server(2002, "msc", 1),
            to_server(2003, "gw", 1),
        ],
        sccp: Some(Sccp {
            local_ssns: vec![6],
            gtt: vec![
                GttRule {
                    match_: GttMatch { gt_prefix: Some("15550".into()), ..Default::default() },
                    to: RouteTarget {
                        dpc: Some(RawPc(2000)),
                        ssn: Some(6),
                        ..Default::default()
                    },
                },
                GttRule {
                    match_: GttMatch { gt_prefix: Some("1777".into()), ..Default::default() },
                    to: RouteTarget {
                        dpc: Some(RawPc(4000)),
                        ssn: Some(6),
                        ..Default::default()
                    },
                },
                GttRule {
                    match_: GttMatch { gt_prefix: Some("1888".into()), ..Default::default() },
                    to: RouteTarget { local: Some(true), ..Default::default() },
                },
            ],
            ..Default::default()
        }),
        content_routing: None,
        isup_screening: None,
        tcap: None,
        tenants: None,
    }
}

struct Plane {
    router: Router,
    registry: Registry,
    m: Metrics,
}

fn plane(raw: RawFile) -> Plane {
    let cfg = Config::from_raw(raw).unwrap();
    let mut router = Router::new(&cfg);
    let registry = Registry::build(&cfg, DEFAULT_TENANT).unwrap();
    router.reset_availability_down(DEFAULT_TENANT);
    Plane { router, registry, m: Metrics::new() }
}

impl Plane {
    fn up(&mut self, id: &str) {
        connected(&mut self.registry, id);
        set_active(&mut self.registry, &mut self.router, &mut self.m, id, true);
    }
    fn down(&mut self, id: &str) {
        disconnect(&mut self.registry, &mut self.router, &mut self.m, id);
    }
    fn send(&mut self, msu: Msu, from: &str) -> Outcome {
        dispatch(&mut self.router, &self.registry, &mut self.m, msu, from)
    }
}

fn all_up() -> Plane {
    let mut p = plane(file());
    for id in ["hlr-a", "hlr-b", "msc", "gmsc", "xit"] {
        p.up(id);
    }
    p
}

fn unit(dpc: u32, si: u8, sls: u8, payload: Vec<u8>) -> Msu {
    Msu { opc: 3000, dpc, si, ni: 2, mp: 1, sls, payload }
}

fn gt(digits: &str) -> sccp::SccpAddress {
    sccp::SccpAddress::with_gt(
        sccp::GlobalTitle::Gt0100 {
            translation_type: 0,
            numbering_plan: 1,
            encoding_scheme: 1,
            nature_of_address: 4,
            digits: digits.into(),
        },
        Some(sccp::SubsystemNumber::from_u8(8)),
    )
}

fn udt(called: &str) -> Vec<u8> {
    sccp::SccpMessage::Udt(sccp::UnitData::new(gt(called), gt("15559"), vec![1, 2, 3])).encode().unwrap()
}

fn xudt(called: &str, hop: u8, handling: u8) -> Vec<u8> {
    let mut x = sccp::ExtendedUnitData::new(gt(called), gt("15559"), vec![1, 2, 3]);
    x.hop_counter = hop;
    x.message_handling = handling;
    sccp::SccpMessage::Xudt(x).encode().unwrap()
}

fn frames(o: Outcome) -> Vec<Frame> {
    match o {
        Outcome::Forwarded(f) => f,
        other => panic!("not forwarded: {other:?}"),
    }
}

fn cause(o: Outcome) -> DropCause {
    match o {
        Outcome::Dropped(c, f) => {
            assert!(f.is_empty());
            c
        }
        other => panic!("not dropped: {other:?}"),
    }
}

// ── Transfer ────────────────────────────────────────────────────────────────

#[test]
fn any_service_indicator_transits_untouched() {
    let mut p = all_up();
    for si in [0u8, 1, 3, 5, 13] {
        let f = frames(p.send(unit(2002, si, 0, vec![9, 9, si]), "xit"));
        assert_eq!(f.len(), 1);
        assert_eq!((f[0].assoc.as_str(), f[0].stream, f[0].ppid), ("msc", 1, PPID_M3UA));
        let got = extract_m3ua(&f[0].bytes).unwrap();
        assert_eq!(got, unit(2002, si, 0, vec![9, 9, si]));
        assert_eq!(msu_total(&p.m, Dir::Rx, si), 1);
    }
}

#[test]
fn link_selection_spreads_over_active_asps() {
    let mut p = all_up();
    for (sls, want) in [(0u8, "hlr-a"), (1, "hlr-b"), (2, "hlr-a")] {
        let f = frames(p.send(unit(2000, 5, sls, vec![1]), "msc"));
        assert_eq!(f[0].assoc, want);
    }
    p.down("hlr-a");
    let f = frames(p.send(unit(2000, 5, 0, vec![1]), "msc"));
    assert_eq!(f[0].assoc, "hlr-b");
}

#[test]
fn a_lost_server_fails_over_to_the_linkset_and_back() {
    let mut p = all_up();
    p.down("hlr-a");
    p.down("hlr-b");
    let f = frames(p.send(unit(2000, 5, 0, vec![1, 2]), "msc"));
    assert_eq!((f[0].assoc.as_str(), f[0].ppid), ("xit", PPID_M2PA));
    assert_eq!(extract_m2pa(&f[0].bytes).unwrap().unwrap(), unit(2000, 5, 0, vec![1, 2]));
    p.up("hlr-b");
    let f = frames(p.send(unit(2000, 5, 0, vec![1]), "msc"));
    assert_eq!(f[0].assoc, "hlr-b");
}

#[test]
fn an_unreachable_point_code_is_dropped_with_its_number() {
    let mut p = all_up();
    assert_eq!(
        cause(p.send(unit(4711, 5, 0, vec![]), "msc")),
        DropCause::Routing { reason: "no MTP3 route to 4711".into() }
    );
}

#[test]
fn our_own_origin_is_a_loop() {
    let mut p = all_up();
    let mut looped = unit(2002, 5, 0, vec![1]);
    looped.opc = 1000;
    assert_eq!(cause(p.send(looped, "xit")), DropCause::OwnOpc);
    assert_eq!(loops_detected(&p.m, LoopKind::OwnOpc), 1);
}

#[test]
fn a_message_is_not_reflected() {
    let mut p = all_up();
    let c = cause(p.send(unit(2002, 5, 0, vec![1]), "msc"));
    assert_eq!(c, DropCause::Reflected(Destination::ApplicationServer("msc".into())));
    assert_eq!(loops_detected(&p.m, LoopKind::RouteReflect), 1);
    // A translated message is held to the same guard.
    let c = cause(p.send(unit(1000, SI_SCCP, 0, udt("15550100")), "hlr-a"));
    assert_eq!(c, DropCause::Reflected(Destination::ApplicationServer("hlr".into())));
    assert_eq!(loops_detected(&p.m, LoopKind::RouteReflect), 2);
}

// ── Translation and the hop counter ─────────────────────────────────────────

#[test]
fn a_title_is_translated_and_relabelled() {
    let mut p = all_up();
    let f = frames(p.send(unit(1000, SI_SCCP, 0, udt("15550100")), "msc"));
    assert_eq!(f[0].assoc, "hlr-a");
    let got = extract_m3ua(&f[0].bytes).unwrap();
    assert_eq!((got.opc, got.dpc), (3000, 2000));
    assert_eq!(got.payload, udt("15550100"));
}

#[test]
fn a_translation_decrements_the_hop_counter() {
    let mut p = all_up();
    let f = frames(p.send(unit(1000, SI_SCCP, 0, xudt("15550100", 5, 0)), "msc"));
    let got = extract_m3ua(&f[0].bytes).unwrap();
    assert_eq!(sccp::SccpMessage::decode(&got.payload).unwrap().hop_counter(), Some(4));
    assert_eq!(got.payload, xudt("15550100", 4, 0));
}

#[test]
fn an_exhausted_hop_counter_is_dropped_and_returned_if_asked() {
    let mut p = all_up();
    for hop in [0u8, 1] {
        assert_eq!(
            cause(p.send(unit(1000, SI_SCCP, 0, xudt("15550100", hop, 0)), "msc")),
            DropCause::HopExhausted
        );
    }
    assert_eq!(loops_detected(&p.m, LoopKind::HopCounter), 2);
    match p.send(unit(1000, SI_SCCP, 7, xudt("15550100", 1, 8)), "msc") {
        Outcome::Dropped(DropCause::HopExhausted, f) => {
            assert_eq!(f.len(), 1);
            assert_eq!(f[0].assoc, "msc");
            let back = extract_m3ua(&f[0].bytes).unwrap();
            assert_eq!((back.opc, back.dpc, back.sls, back.ni), (1000, 3000, 7, 2));
            match sccp::SccpMessage::decode(&back.payload).unwrap() {
                sccp::SccpMessage::Xudts(s) => {
                    assert_eq!(s.return_cause, sccp::ReturnCause::HopCounterViolation);
                    assert_eq!(s.called_party.global_title.digits(), Some("15559"));
                    assert_eq!(s.calling_party.global_title.digits(), Some("15550100"));
                    assert_eq!(s.data, vec![1, 2, 3]);
                }
                other => panic!("not an XUDTS: {other:?}"),
            }
        }
        other => panic!("unexpected {other:?}"),
    }
    let mut l = sccp::LongUnitData::new(gt("15550100"), gt("15559"), vec![4]);
    l.hop_counter = 1;
    l.message_handling = 8;
    let payload = sccp::SccpMessage::Ludt(l).encode().unwrap();
    match p.send(unit(1000, SI_SCCP, 0, payload), "msc") {
        Outcome::Dropped(DropCause::HopExhausted, f) => {
            let back = extract_m3ua(&f[0].bytes).unwrap();
            assert!(matches!(sccp::SccpMessage::decode(&back.payload).unwrap(), sccp::SccpMessage::Ludts(_)));
        }
        other => panic!("unexpected {other:?}"),
    }
}

#[test]
fn a_translation_without_route_is_dropped() {
    let mut p = all_up();
    assert_eq!(
        cause(p.send(unit(1000, SI_SCCP, 0, udt("17770000")), "msc")),
        DropCause::NoRoute { dpc: 4000 }
    );
}

#[test]
fn a_cost_group_fails_over_to_its_cheapest_reachable_member() {
    let member = |dpc: u32, cost: u8| GroupMember {
        dpc: RawPc(dpc),
        ssn: 6,
        cost: Some(cost),
        weight: None,
    };
    let mut raw = file();
    raw.sccp = Some(Sccp {
        gtt_groups: vec![GttGroup {
            name: "ag".into(),
            mode: GroupMode::Cost,
            members: vec![member(2003, 3), member(2000, 1), member(2002, 2)],
        }],
        gtt: vec![GttRule {
            match_: GttMatch { gt_prefix: Some("1555".into()), ..Default::default() },
            to: RouteTarget { group: Some("ag".into()), ..Default::default() },
        }],
        ..Default::default()
    });
    let mut p = plane(raw);
    let went = |p: &mut Plane| match p.send(unit(1000, SI_SCCP, 0, udt("15550100")), "nowhere") {
        Outcome::Forwarded(f) => Ok(f[0].assoc.clone()),
        Outcome::Dropped(c, _) => Err(c),
        other => panic!("unexpected {other:?}"),
    };
    // Nothing is up: the primary stands, without a route.
    assert_eq!(went(&mut p), Err(DropCause::NoRoute { dpc: 2000 }));
    assert_eq!(gtt_errors(&p.m, GttError::NoRoute), 1);
    p.up("gmsc");
    assert_eq!(went(&mut p), Ok("gmsc".to_string()));
    p.up("msc");
    assert_eq!(went(&mut p), Ok("msc".to_string()));
    p.up("hlr-b");
    assert_eq!(went(&mut p), Ok("hlr-b".to_string()));
    p.down("hlr-b");
    assert_eq!(went(&mut p), Ok("msc".to_string()));
    // What a group gave is counted under the group.
    assert_eq!(gtt_translations(&p.m, GttResultKind::Group), 5);
    assert_eq!(gtt_translations(&p.m, GttResultKind::Dpc), 0);
}

#[test]
fn a_local_title_is_delivered_with_its_association() {
    let mut p = all_up();
    let msu = unit(1000, SI_SCCP, 0, udt("18880000"));
    match p.send(msu.clone(), "msc") {
        Outcome::Delivered(d) => {
            assert_eq!(d.msu, msu);
            assert_eq!(d.ingress_assoc, "msc");
        }
        other => panic!("not delivered: {other:?}"),
    }
}

#[test]
fn titles_become_selectors() {
    let sel = inbound_from_msu(&unit(1000, SI_SCCP, 0, udt("15550100")));
    assert_eq!(sel.called_ssn, Some(8));
    let s = sel.cdpa.unwrap();
    assert_eq!(
        (s.digits.as_str(), s.gti, s.tt, s.np, s.nai),
        ("15550100", Some(4), Some(0), Some(1), Some(4))
    );
    let title = siphon_sigtran::sccp::message::PartyTitle::Gt0011 {
        translation_type: 5,
        numbering_plan: 6,
        encoding_scheme: 1,
        digits: "12".into(),
    };
    let s = selector_from_gt(&title);
    assert_eq!((s.gti, s.tt, s.np, s.nai), (Some(3), Some(5), Some(6), None));
    // Another user part, or a payload that does not decode, has only its point code.
    assert!(inbound_from_msu(&unit(1000, SI_ISUP, 0, udt("15550100"))).cdpa.is_none());
    assert!(inbound_from_msu(&unit(1000, SI_SCCP, 0, vec![0xFF])).cdpa.is_none());
}

// ── Content rules and screening on the wire ─────────────────────────────────

fn sri_sm(called: &str) -> Vec<u8> {
    let arg = rasn::ber::encode(&gsm_map::operations::sri_sm::RoutingInfoForSmArg {
        msisdn: gsm_map::address::international_e164("15550142").unwrap().into(),
        sm_rp_pri: true,
        service_centre_address: gsm_map::address::international_e164("15550199").unwrap().into(),
        gprs_support_indicator: None,
        sm_rp_mti: None,
        sm_rp_smea: None,
    })
    .unwrap();
    let begin = tcap::TcapMessage::Begin(tcap::Begin {
        otid: vec![1, 2, 3, 4].into(),
        dialogue_portion: None,
        components: Some(vec![tcap::Component::Invoke(tcap::Invoke {
            invoke_id: 1,
            linked_id: None,
            operation_code: tcap::OperationCode::Local(45),
            parameter: Some(rasn::types::Any::new(arg)),
        })]),
    });
    sccp::SccpMessage::Udt(sccp::UnitData::new(gt(called), gt("15559"), tcap::encode(&begin).unwrap()))
        .encode()
        .unwrap()
}

fn content(action: ContentAction) -> RawFile {
    RawFile {
        content_routing: Some(ContentRouting {
            protocol: ContentProtocol::GsmMap,
            address_tables: vec![],
            imsi_tables: vec![],
            rules: vec![ContentRule {
                name: "sri".into(),
                match_: ContentMatch {
                    operation: Some(OneOrMany::One("sri-sm".into())),
                    ..Default::default()
                },
                action,
            }],
        }),
        ..file()
    }
}

#[test]
fn content_rules_act_on_the_wire() {
    let mut p = plane(content(ContentAction { screen: Some(true), ..Default::default() }));
    p.up("hlr-a");
    assert_eq!(
        cause(p.send(unit(1000, SI_SCCP, 0, sri_sm("15550100")), "msc")),
        DropCause::Routing { reason: "screened by content rule".into() }
    );
    // A message without the operation falls through to translation.
    assert_eq!(frames(p.send(unit(1000, SI_SCCP, 0, udt("15550100")), "msc"))[0].assoc, "hlr-a");
    let mut p = plane(content(ContentAction { python: Some("dip".into()), ..Default::default() }));
    assert_eq!(
        cause(p.send(unit(1000, SI_SCCP, 0, sri_sm("15550100")), "msc")),
        DropCause::Hook { hook: "dip".into() }
    );
}

#[test]
fn a_rewrite_goes_out_on_the_wire() {
    // Routed by the rule: the called digits are replaced, in whatever number.
    let route = RouteTarget { dpc: Some(RawPc(2002)), ssn: Some(6), ..Default::default() };
    let mut p = plane(content(ContentAction {
        route: Some(route),
        rewrite_cdpa_gt: Some("155501001".into()),
        ..Default::default()
    }));
    p.up("msc");
    let f = frames(p.send(unit(1000, SI_SCCP, 0, sri_sm("15550100")), "xit"));
    let got = extract_m3ua(&f[0].bytes).unwrap();
    assert_eq!(got.dpc, 2002);
    assert_eq!(got.payload, sri_sm("155501001"));
    // A message that the rule does not match keeps its digits.
    p.up("hlr-a");
    let f = frames(p.send(unit(1000, SI_SCCP, 0, udt("15550100")), "xit"));
    assert_eq!(extract_m3ua(&f[0].bytes).unwrap().payload, udt("15550100"));

    // Without a route the new digits are translated, and go out too.
    let mut p = plane(content(ContentAction {
        rewrite_cdpa_gt: Some("15550777".into()),
        ..Default::default()
    }));
    p.up("hlr-a");
    let f = frames(p.send(unit(1000, SI_SCCP, 0, sri_sm("19990000")), "xit"));
    let got = extract_m3ua(&f[0].bytes).unwrap();
    assert_eq!(got.dpc, 2000);
    assert_eq!(got.payload, sri_sm("15550777"));

    // Digits that cannot be encoded leave the message as it is.
    let mut p = plane(content(ContentAction {
        route: Some(RouteTarget { dpc: Some(RawPc(2000)), ssn: Some(6), ..Default::default() }),
        rewrite_cdpa_gt: Some("15x".into()),
        ..Default::default()
    }));
    p.up("hlr-a");
    let f = frames(p.send(unit(1000, SI_SCCP, 0, sri_sm("15550100")), "xit"));
    assert_eq!(extract_m3ua(&f[0].bytes).unwrap().payload, sri_sm("15550100"));
}

#[test]
fn transiting_isup_is_screened() {
    let screen = |default: ScreenAction| RawFile {
        isup_screening: Some(IsupScreening {
            default,
            rules: vec![ScreenRule {
                name: "rel".into(),
                match_: ScreenMatch {
                    message_type: Some("rel".into()),
                    called_prefix: None,
                    calling_prefix: None,
                },
                action: ScreenAction::Block,
            }],
        }),
        ..file()
    };
    let rel = itu_isup::Message::release(1, &itu_isup::CauseIndicators::new(1, 16))
        .encode()
        .unwrap();
    let mut p = plane(screen(ScreenAction::Allow));
    p.up("msc");
    assert_eq!(
        cause(p.send(unit(2002, SI_ISUP, 0, rel.clone()), "xit")),
        DropCause::Screened(Screened::BlockRule { rule: "rel".into() })
    );
    assert_eq!(isup_screened(&p.m, ScreenReason::Rule), 1);
    // The same octets under another service indicator transit.
    assert_eq!(frames(p.send(unit(2002, 13, 0, rel), "xit")).len(), 1);
    // What does not decode takes the default, and is counted.
    assert_eq!(frames(p.send(unit(2002, SI_ISUP, 0, vec![1]), "xit")).len(), 1);
    let mut p = plane(screen(ScreenAction::Block));
    p.up("msc");
    assert!(matches!(
        cause(p.send(unit(2002, SI_ISUP, 0, vec![1]), "xit")),
        DropCause::Screened(Screened::BlockUndecoded { .. })
    ));
    assert_eq!(isup_screened(&p.m, ScreenReason::DecodeError), 1);
}

// ── Framing ─────────────────────────────────────────────────────────────────

#[test]
fn frames_are_what_the_published_codecs_read() {
    let msu = unit(2002, SI_SCCP, 5, udt("15550100"));
    let m = M3uaMessage::decode(&wrap_m3ua(&msu, Some(101))).unwrap();
    assert_eq!(m.routing_context(), Some(101));
    let pd: ProtocolData = m.protocol_data().unwrap();
    assert_eq!((pd.opc, pd.dpc, pd.si, pd.ni, pd.mp, pd.sls), (3000, 2002, 3, 2, 1, 5));
    assert_eq!(pd.user_data, msu.payload);
    match m2pa::M2paMessage::decode(&wrap_m2pa(&msu).unwrap()).unwrap() {
        m2pa::M2paMessage::UserData { bsn, fsn, message } => {
            assert_eq!((bsn, fsn), (0xFF_FFFF, 0xFF_FFFF));
            assert_eq!(message.msu.len(), 5 + msu.payload.len());
        }
        other => panic!("not user data: {other:?}"),
    }
    let s = sua::SuaMessage::decode(&wrap_sua(&msu, 102).unwrap()).unwrap();
    assert_eq!(s.routing_context(), Some(102));
    assert_eq!(s.data().unwrap(), &[1, 2, 3]);
}

#[test]
fn a_sua_server_gets_connectionless_data() {
    let mut p = all_up();
    let msu = unit(2003, SI_SCCP, 3, udt("15550100"));
    let f = frames(p.send(msu.clone(), "msc"));
    assert_eq!((f[0].assoc.as_str(), f[0].ppid), ("gmsc", PPID_SUA));
    let back = extract_sua(&f[0].bytes, 1000, 2).unwrap();
    assert_eq!(
        sccp::SccpMessage::decode(&back.payload).unwrap().called_party().global_title.digits(),
        Some("15550100")
    );
    // SUA carries no other user part: nothing is sent.
    assert!(frames(p.send(unit(2003, SI_ISUP, 0, vec![1]), "msc")).is_empty());
}

// ── Associations ────────────────────────────────────────────────────────────

fn step(p: &mut Plane, state: &mut AspState, bytes: &[u8]) -> Vec<Control> {
    let r = receive_m3ua(bytes).unwrap();
    sg_receive(
        state,
        Adaptation::M3ua,
        &mut p.registry,
        &mut p.router,
        &mut p.m,
        "msc",
        r,
    )
    .replies
}

#[test]
fn a_peer_brings_its_server_up_and_down() {
    let mut p = plane(file());
    let mut state = AspState::Down;
    connected(&mut p.registry, "msc");
    assert_eq!(link_state(p.registry.slot("msc").unwrap()), LinkState::Inactive);
    assert_eq!(
        step(&mut p, &mut state, &M3uaMessage::asp_up(None, None).encode()),
        vec![Control::AspUpAck]
    );
    assert!(!p.router.is_reachable(DEFAULT_TENANT, 2002));
    assert_eq!(
        step(&mut p, &mut state, &M3uaMessage::asp_active(None, Some(101)).encode()),
        vec![Control::AspActiveAck { routing_context: Some(101) }]
    );
    assert_eq!(state, AspState::Active);
    assert_eq!(link_state(p.registry.slot("msc").unwrap()), LinkState::Active);
    assert!(p.router.is_reachable(DEFAULT_TENANT, 2002));
    assert_eq!(
        step(&mut p, &mut state, &M3uaMessage::heartbeat(None).encode()),
        vec![Control::HeartbeatAck]
    );
    assert_eq!(
        step(&mut p, &mut state, &M3uaMessage::asp_inactive(Some(101)).encode()),
        vec![Control::AspInactiveAck { routing_context: Some(101) }]
    );
    assert!(!p.router.is_reachable(DEFAULT_TENANT, 2002));
    assert_eq!(
        step(&mut p, &mut state, &M3uaMessage::asp_down(None).encode()),
        vec![Control::AspDownAck]
    );
    assert_eq!(state, AspState::Down);
    p.down("msc");
    assert_eq!(link_state(p.registry.slot("msc").unwrap()), LinkState::Down);
}

#[test]
fn payload_is_delivered_only_from_an_active_peer() {
    let mut p = all_up();
    let data = wrap_m3ua(&unit(2000, 5, 0, vec![1]), Some(101));
    for (start, delivered) in
        [(AspState::Down, false), (AspState::Inactive, false), (AspState::Active, true)]
    {
        let mut state = start;
        let r = sg_receive(
            &mut state,
            Adaptation::M3ua,
            &mut p.registry,
            &mut p.router,
            &mut p.m,
            "msc",
            receive_m3ua(&data).unwrap(),
        );
        assert_eq!(state, start);
        assert!(r.replies.is_empty());
        assert_eq!(matches!(r.outcome, Some(Outcome::Forwarded(_))), delivered);
    }
}

#[test]
fn an_asp_goes_active_for_its_server() {
    let mut p = plane(file());
    connected(&mut p.registry, "msc");
    let membership = p.registry.as_membership("msc");
    assert_eq!(membership, Some((101, TrafficMode::Override)));
    assert_eq!(asp_opening(), Control::AspUp { asp_id: 1 });
    let send = |p: &mut Plane, bytes: &[u8]| {
        asp_receive(
            membership,
            Adaptation::M3ua,
            &mut p.registry,
            &mut p.router,
            &mut p.m,
            "msc",
            receive_m3ua(bytes).unwrap(),
        )
    };
    let r = send(&mut p, &M3uaMessage::asp_up_ack(None).encode());
    assert_eq!(r.replies, vec![Control::AspActive { traffic_mode: 1, routing_context: 101 }]);
    let data = wrap_m3ua(&unit(2002, 5, 0, vec![1]), Some(101));
    assert!(send(&mut p, &data).outcome.is_none());
    let r = send(&mut p, &M3uaMessage::asp_active_ack(None, Some(101)).encode());
    assert!(r.replies.is_empty());
    assert!(p.router.is_reachable(DEFAULT_TENANT, 2002));
    assert!(matches!(
        send(&mut p, &data).outcome,
        Some(Outcome::Dropped(DropCause::Reflected(_), _))
    ));
    assert_eq!(
        send(&mut p, &M3uaMessage::heartbeat(None).encode()).replies,
        vec![Control::HeartbeatAck]
    );
    send(&mut p, &M3uaMessage::asp_down_ack(None).encode());
    assert!(!p.router.is_reachable(DEFAULT_TENANT, 2002));
}

#[test]
fn network_management_moves_the_routes() {
    let mut p = all_up();
    let mut state = AspState::Active;
    step(&mut p, &mut state, &M3uaMessage::duna(None, vec![2002]).encode());
    assert!(!p.router.is_reachable(DEFAULT_TENANT, 2002));
    assert_eq!(mtp3mg_events(&p.m, 2002, Mtp3MgKind::Pause), 1);
    assert_eq!(
        step(&mut p, &mut state, &M3uaMessage::daud(Some(9), vec![2000, 2002, 2003]).encode()),
        vec![
            Control::Dava { routing_context: Some(9), affected: vec![2000, 2003] },
            Control::Duna { routing_context: Some(9), affected: vec![2002] },
        ]
    );
    step(&mut p, &mut state, &M3uaMessage::dava(None, vec![2002]).encode());
    assert!(p.router.is_reachable(DEFAULT_TENANT, 2002));
    assert_eq!(mtp3mg_events(&p.m, 2002, Mtp3MgKind::Resume), 1);
    // A point code outside the variant is passed over.
    step(&mut p, &mut state, &M3uaMessage::duna(None, vec![0xFF_FFFF]).encode());
    assert_eq!(mtp3mg_events(&p.m, 0xFF_FFFF, Mtp3MgKind::Pause), 0);
    assert_eq!(state, AspState::Active);
}

#[test]
fn a_sua_peer_is_handled_alike() {
    let mut p = plane(file());
    connected(&mut p.registry, "gmsc");
    let mut state = AspState::Down;
    let mut step = |p: &mut Plane, bytes: &[u8]| {
        sg_receive(
            &mut state,
            Adaptation::Sua,
            &mut p.registry,
            &mut p.router,
            &mut p.m,
            "gmsc",
            receive_sua(bytes, 1000, 2).unwrap(),
        )
    };
    assert_eq!(
        step(&mut p, &sua::SuaMessage::asp_up(None, None).encode()).replies,
        vec![Control::AspUpAck]
    );
    assert_eq!(
        step(&mut p, &sua::SuaMessage::asp_active(None, Some(102)).encode()).replies,
        vec![Control::AspActiveAck { routing_context: Some(102) }]
    );
    assert!(p.router.is_reachable(DEFAULT_TENANT, 2003));
    p.up("hlr-a");
    let cldt = wrap_sua(&unit(1000, SI_SCCP, 0, udt("15550100")), 102).unwrap();
    let r = step(&mut p, &cldt);
    assert_eq!(frames(r.outcome.unwrap())[0].assoc, "hlr-a");
}

#[test]
fn control_messages_read_back_with_their_context() {
    let c = Control::AspActiveAck { routing_context: Some(7) };
    let m = M3uaMessage::decode(&m3ua_control(c.clone())).unwrap();
    assert_eq!(m.message_type, m3ua::MessageType::AspActiveAck);
    assert_eq!(m.routing_context(), Some(7));
    let m = sua::SuaMessage::decode(&sua_control(c)).unwrap();
    assert_eq!(m.message_type, sua::MessageType::AspActiveAck);
    assert_eq!(m.routing_context(), Some(7));
    assert!(receive_m3ua(&[1, 2]).is_none());
    assert!(receive_sua(&[1, 2], 0, 0).is_none());
}

#[test]
fn a_link_aligns_and_then_carries() {
    let mut p = plane(file());
    connected(&mut p.registry, "xit");
    let (mut state, opening) = link_opening();
    assert_eq!((state, opening), (M2paState::NotAligned, LinkStatus::Alignment));
    let mut status = |p: &mut Plane, s: LinkStatus| {
        let r = link_receive(
            &mut state,
            &mut p.registry,
            &mut p.router,
            &mut p.m,
            "xit",
            receive_m2pa(&send_status(s)),
        );
        (r.status, state)
    };
    assert_eq!(
        status(&mut p, LinkStatus::Alignment),
        (Some(LinkStatus::ProvingNormal), M2paState::Aligned)
    );
    assert_eq!(
        status(&mut p, LinkStatus::ProvingNormal),
        (Some(LinkStatus::Ready), M2paState::Proving)
    );
    assert_eq!(
        status(&mut p, LinkStatus::Ready),
        (Some(LinkStatus::Ready), M2paState::AlignedReady)
    );
    assert!(!p.router.is_reachable(DEFAULT_TENANT, 3000));
    assert_eq!(status(&mut p, LinkStatus::Ready), (None, M2paState::InService));
    assert!(p.router.is_reachable(DEFAULT_TENANT, 3000));
    p.up("msc");
    let mut s = M2paState::InService;
    let data = wrap_m2pa(&unit(2002, 5, 0, vec![1])).unwrap();
    let r = link_receive(
        &mut s,
        &mut p.registry,
        &mut p.router,
        &mut p.m,
        "xit",
        receive_m2pa(&data),
    );
    assert_eq!(frames(r.outcome.unwrap())[0].assoc, "msc");
    p.down("xit");
    let r = link_receive(
        &mut s,
        &mut p.registry,
        &mut p.router,
        &mut p.m,
        "xit",
        receive_m2pa(&data),
    );
    assert!(r.outcome.is_none());
    let r = link_receive(
        &mut s,
        &mut p.registry,
        &mut p.router,
        &mut p.m,
        "xit",
        receive_m2pa(&[1, 2, 3]),
    );
    assert!(r.outcome.is_none() && r.status.is_none());
}

#[test]
fn a_link_status_message_is_the_published_one() {
    for (ours, theirs) in [
        (LinkStatus::Alignment, m2pa::LinkState::Alignment),
        (LinkStatus::ProvingNormal, m2pa::LinkState::ProvingNormal),
        (LinkStatus::Ready, m2pa::LinkState::Ready),
    ] {
        match m2pa::M2paMessage::decode(&send_status(ours)).unwrap() {
            m2pa::M2paMessage::LinkStatus { bsn, fsn, message } => {
                assert_eq!((bsn, fsn, message.state), (0xFF_FFFF, 0xFF_FFFF, theirs));
            }
            other => panic!("not a status: {other:?}"),
        }
    }
}

// ── Replies and originated messages ─────────────────────────────────────────

#[test]
fn a_reply_leaves_on_the_association_that_asked() {
    let mut p = all_up();
    let msu = unit(3000, SI_SCCP, 0, udt("15550100"));
    let f = send_reply(&p.registry, "msc", &msu).unwrap();
    assert_eq!((f.assoc.as_str(), f.stream, f.ppid), ("msc", 1, PPID_M3UA));
    assert_eq!(M3uaMessage::decode(&f.bytes).unwrap().routing_context(), Some(101));
    assert_eq!(send_reply(&p.registry, "xit", &msu).unwrap().ppid, PPID_M2PA);
    assert_eq!(send_reply(&p.registry, "gmsc", &msu).unwrap().ppid, PPID_SUA);
    assert!(send_reply(&p.registry, "nobody", &msu).is_none());
    p.down("msc");
    assert!(send_reply(&p.registry, "msc", &msu).is_none());
}

#[test]
fn an_originated_message_follows_its_point_code() {
    let mut p = all_up();
    assert_eq!(
        resolve_egress(&mut p.router, &mut p.m, DEFAULT_TENANT, 2002),
        Some(Destination::ApplicationServer("msc".into()))
    );
    assert_eq!(resolve_egress(&mut p.router, &mut p.m, DEFAULT_TENANT, 1000), None);
    assert_eq!(resolve_egress(&mut p.router, &mut p.m, DEFAULT_TENANT, 4711), None);
    let f = send_originated(&p.registry, &mut p.router, &mut p.m, &unit(2002, 3, 0, vec![1]));
    assert_eq!(f[0].assoc, "msc");
    let f = send_originated(&p.registry, &mut p.router, &mut p.m, &unit(4711, 3, 0, vec![1]));
    assert!(f.is_empty());
}

#[test]
fn an_abort_for_a_swept_dialogue_is_never_lost_silently() {
    let mut p = all_up();
    let msu = unit(2002, SI_SCCP, 0, udt("15550100"));
    let mut abort = |id: &str| {
        send_sweep_abort(&p.registry, &mut p.router, &mut p.m, id, &msu)
            .iter()
            .map(|f| f.assoc.clone())
            .collect::<Vec<_>>()
    };
    assert_eq!(abort("hlr-b"), vec!["hlr-b".to_string()]);
    assert_eq!(abort(""), vec!["msc".to_string()]);
    assert_eq!(abort("nobody"), vec!["msc".to_string()]);
}

#[test]
fn the_registry_knows_memberships() {
    let p = plane(file());
    assert_eq!(p.registry.tenant(), DEFAULT_TENANT);
    assert_eq!(p.registry.as_membership("hlr-b"), Some((100, TrafficMode::Loadshare)));
    assert_eq!(p.registry.as_membership("xit"), None);
    assert_eq!(
        p.registry.inbound_destination("xit"),
        Some(Destination::Linkset("transit".into()))
    );
    assert_eq!(
        p.registry.inbound_destination("hlr-a"),
        Some(Destination::ApplicationServer("hlr".into()))
    );
    assert_eq!(p.registry.inbound_destination("nobody"), None);
    assert!(Registry::build(&Config::from_raw(file()).unwrap(), "nobody").is_none());
}

#[test]
fn nothing_carries_before_a_handshake() {
    let mut p = plane(file());
    assert_eq!(
        cause(p.send(unit(2002, 5, 0, vec![]), "xit")),
        DropCause::Routing { reason: "no MTP3 route to 2002".into() }
    );
    connected(&mut p.registry, "msc");
    assert!(p
        .registry
        .select(&Destination::ApplicationServer("msc".into()), 0)
        .is_empty());
    assert!(matches!(
        p.router.route(&mut p.m, &siphon_sigtran::routing::Inbound { dpc: 2002, ..Default::default() }),
        RouteDecision::Drop { .. }
    ));
}

#[test]
fn network_management_refreshes_the_route_gauges() {
    let mut p = all_up();
    let mut state = AspState::Active;
    let gauge = |p: &Plane, dpc: u32| p.m.route_available.get(&dpc).copied();
    step(&mut p, &mut state, &M3uaMessage::duna(None, vec![2002, 2003]).encode());
    assert_eq!((gauge(&p, 2000), gauge(&p, 2002), gauge(&p, 2003)), (Some(1), Some(0), Some(0)));
    step(&mut p, &mut state, &M3uaMessage::dava(None, vec![2003]).encode());
    assert_eq!((gauge(&p, 2000), gauge(&p, 2002), gauge(&p, 2003)), (Some(1), Some(0), Some(1)));
    // An audit asks and changes nothing.
    step(&mut p, &mut state, &M3uaMessage::daud(None, vec![2000, 2002]).encode());
    assert_eq!((gauge(&p, 2000), gauge(&p, 2002), gauge(&p, 2003)), (Some(1), Some(0), Some(1)));
}

#[test]
fn a_rule_for_any_operation_skips_an_unrecognised_one() {
    let raw = RawFile {
        content_routing: Some(ContentRouting {
            protocol: ContentProtocol::GsmMap,
            address_tables: vec![],
            imsi_tables: vec![],
            rules: vec![ContentRule {
                name: "all".into(),
                match_: ContentMatch::default(),
                action: ContentAction { screen: Some(true), ..Default::default() },
            }],
        }),
        ..file()
    };
    let mut p = plane(raw);
    p.up("hlr-a");
    let asks = |code: i64| {
        let begin = tcap::TcapMessage::Begin(tcap::Begin {
            otid: vec![1, 2, 3, 4].into(),
            dialogue_portion: None,
            components: Some(vec![tcap::Component::Invoke(tcap::Invoke {
                invoke_id: 1,
                linked_id: None,
                operation_code: tcap::OperationCode::Local(code),
                parameter: None,
            })]),
        });
        let data = tcap::encode(&begin).unwrap();
        sccp::SccpMessage::Udt(sccp::UnitData::new(gt("15550100"), gt("15559"), data))
            .encode()
            .unwrap()
    };
    assert_eq!(
        cause(p.send(unit(1000, SI_SCCP, 0, asks(45)), "msc")),
        DropCause::Routing { reason: "screened by content rule".into() }
    );
    assert_eq!(frames(p.send(unit(1000, SI_SCCP, 0, asks(67)), "msc"))[0].assoc, "hlr-a");
}
