use siphon_sigtran::config::{
    Adaptation, AddressTable, ApplicationServer, Association, Config, ContentAction, ContentMatch,
    ContentProtocol, ContentRouting, ContentRule, ConversionAction, ConversionMatch, ConversionNp,
    ConversionRule, GroupMember, GroupMode, GtConversion, GttGroup, GttMatch, GttRule, ImsiTable,
    Link, Linkset, Mtp3Route, NetworkIndicator, Node, OneOrMany, PlmnMapEntry, RawFile, Role,
    RouteTarget, Sccp, Tcap, Tenant, TrafficMode, DEFAULT_TENANT,
};
use siphon_sigtran::content::engine::{Action, ContentEngine};
use siphon_sigtran::content::operation::Operation;
use siphon_sigtran::content::view::{decode_map_view, MapView};
use siphon_sigtran::error::Error;
use siphon_sigtran::metrics::{
    content_rule_hits, gtt_errors, gtt_translations, GttError, GttResultKind, Metrics,
};
use siphon_sigtran::mtp3::route::{
    Destination, Mtp3Event, Mtp3Status, RouteResolver, RouteState,
};
use siphon_sigtran::point_code::{PointCode, RawPc, Variant};
use siphon_sigtran::routing::{Inbound, RouteDecision, Router};
use siphon_sigtran::sccp::convert::GtConverter;
use siphon_sigtran::sccp::gtt::{GttResolver, GttResult, GttSelector};
use siphon_sigtran::sccp::message::Unitdata;
use siphon_sigtran::sorted_map::NameMap;
use siphon_sigtran::tenant::Tenancy;

fn raw() -> RawFile {
    RawFile {
        node: None,
        associations: vec![],
        application_servers: vec![],
        linksets: vec![],
        mtp3_routes: vec![],
        sccp: None,
        content_routing: None,
        isup_screening: None,
        tcap: None,
        tenants: None,
    }
}

fn node(point_code: u32) -> Option<Node> {
    Some(Node {
        point_code: RawPc(point_code),
        variant: Variant::Itu,
        network_indicator: NetworkIndicator::International,
    })
}

fn flat() -> RawFile {
    RawFile { node: node(1000), ..raw() }
}

fn m3ua(id: &str, addr: &str) -> Association {
    Association {
        id: id.into(),
        adaptation: Adaptation::M3ua,
        role: Role::Server,
        addrs: vec![addr.into()],
        port: 2905,
        adjacent_pc: None,
    }
}

fn m2pa(id: &str, addr: &str, adjacent: u32) -> Association {
    Association {
        id: id.into(),
        adaptation: Adaptation::M2pa,
        role: Role::Client,
        addrs: vec![addr.into()],
        port: 3565,
        adjacent_pc: Some(RawPc(adjacent)),
    }
}

fn server(name: &str, mode: TrafficMode, rc: u32, asps: &[&str]) -> ApplicationServer {
    ApplicationServer {
        name: name.into(),
        traffic_mode: mode,
        routing_context: rc,
        asps: asps.iter().map(|s| s.to_string()).collect(),
    }
}

fn linkset(name: &str, links: &[(&str, u8)]) -> Linkset {
    Linkset {
        name: name.into(),
        links: links.iter().map(|(a, slc)| Link { assoc: a.to_string(), slc: *slc }).collect(),
    }
}

fn via_as(dpc: u32, name: &str, priority: u8) -> Mtp3Route {
    Mtp3Route { dpc: RawPc(dpc), as_: Some(name.into()), linkset: None, priority }
}

fn via_linkset(dpc: u32, name: &str, priority: u8) -> Mtp3Route {
    Mtp3Route { dpc: RawPc(dpc), as_: None, linkset: Some(name.into()), priority }
}

fn to_dpc(dpc: u32, ssn: u8) -> RouteTarget {
    RouteTarget { dpc: Some(RawPc(dpc)), ssn: Some(ssn), ..Default::default() }
}

fn to_group(name: &str) -> RouteTarget {
    RouteTarget { group: Some(name.into()), ..Default::default() }
}

fn ops(names: &[&str]) -> Option<OneOrMany> {
    if names.len() == 1 {
        Some(OneOrMany::One(names[0].to_string()))
    } else {
        Some(OneOrMany::Many(names.iter().map(|s| s.to_string()).collect()))
    }
}

fn rule(name: &str, match_: ContentMatch, action: ContentAction) -> ContentRule {
    ContentRule { name: name.into(), match_, action }
}

fn sample_sccp() -> Sccp {
    let member = |dpc: u32, ssn: u8, cost: Option<u8>, weight: Option<u8>| GroupMember {
        dpc: RawPc(dpc),
        ssn,
        cost,
        weight,
    };
    let plmn = |mcc: &str, mnc: &str, p: &str| PlmnMapEntry {
        mcc: mcc.into(),
        mnc: mnc.into(),
        e164_prefix: p.into(),
    };
    Sccp {
        local_ssns: vec![6, 8],
        gtt_groups: vec![
            GttGroup {
                name: "ag-hlr".into(),
                mode: GroupMode::Cost,
                members: vec![member(2000, 6, Some(1), None), member(2001, 6, Some(2), None)],
            },
            GttGroup {
                name: "ag-router".into(),
                mode: GroupMode::Share,
                members: vec![member(2003, 8, None, Some(1)), member(2004, 8, None, Some(1))],
            },
        ],
        gtt: vec![
            GttRule {
                match_: GttMatch {
                    gt_prefix: Some("155501".into()),
                    gti: Some(4),
                    tt: Some(0),
                    np: Some(1),
                    nai: Some(4),
                },
                to: to_group("ag-hlr"),
            },
            GttRule {
                match_: GttMatch { gt_prefix: Some("1555".into()), ..Default::default() },
                to: to_dpc(2000, 6),
            },
        ],
        gt_conversion: GtConversion {
            plmn_map: vec![plmn("001", "01", "15551"), plmn("001", "02", "15552")],
            rules: vec![
                ConversionRule {
                    name: "e214-in".into(),
                    match_: ConversionMatch { np: ConversionNp::E214, addressing: None },
                    action: ConversionAction {
                        to_e164_via: Some("plmn_map".into()),
                        to_e214_via: None,
                    },
                },
                ConversionRule {
                    name: "e214-out".into(),
                    match_: ConversionMatch {
                        np: ConversionNp::E164,
                        addressing: Some("imsi".into()),
                    },
                    action: ConversionAction {
                        to_e164_via: None,
                        to_e214_via: Some("plmn_map".into()),
                    },
                },
            ],
        },
    }
}

/// The content rules of the sample: `buyer` names the customer, and the two
/// deferring actions are given.
fn sample_content(
    buyer: &str,
    steer: ContentAction,
    last: &str,
    last_action: ContentAction,
) -> ContentRouting {
    ContentRouting {
        protocol: ContentProtocol::GsmMap,
        address_tables: vec![AddressTable {
            name: "home-subs".into(),
            addrs: vec!["15550142".into(), "15550143".into()],
        }],
        imsi_tables: vec![
            ImsiTable { name: buyer.into(), prefixes: vec!["001010".into(), "001011".into()] },
            ImsiTable { name: "sponsor".into(), prefixes: vec!["00102".into()] },
        ],
        rules: vec![
            rule(
                &format!("{buyer}-home"),
                ContentMatch {
                    operation: ops(&["update-location", "send-auth-info", "cancel-location"]),
                    imsi_in: Some(buyer.into()),
                    ..Default::default()
                },
                ContentAction { route: Some(to_dpc(2005, 6)), ..Default::default() },
            ),
            rule(
                "imsi-steer",
                ContentMatch { imsi_prefix: Some("001".into()), ..Default::default() },
                steer,
            ),
            rule(
                "mt-sms-home-route",
                ContentMatch {
                    operation: ops(&["sri-sm"]),
                    cdpa_gt_in: Some("home-subs".into()),
                    ..Default::default()
                },
                ContentAction {
                    route: Some(to_group("ag-router")),
                    rewrite_cdpa_gt: Some("15550100".into()),
                    ..Default::default()
                },
            ),
            rule(
                last,
                ContentMatch { operation: ops(&["sri-sm"]), ..Default::default() },
                last_action,
            ),
        ],
    }
}

fn python(hook: &str) -> ContentAction {
    ContentAction { python: Some(hook.into()), ..Default::default() }
}

fn sample_raw() -> RawFile {
    RawFile {
        associations: vec![
            m3ua("hlr-a", "10.1.0.10"),
            m3ua("hlr-b", "10.1.0.11"),
            m3ua("msc", "10.1.0.12"),
            m2pa("xit-1", "10.0.1.1", 3000),
            m2pa("xit-2", "10.0.1.2", 3001),
        ],
        application_servers: vec![
            server("hlr", TrafficMode::Loadshare, 100, &["hlr-a", "hlr-b"]),
            server("msc", TrafficMode::Override, 101, &["msc"]),
        ],
        linksets: vec![linkset("transit", &[("xit-1", 0), ("xit-2", 1)])],
        mtp3_routes: vec![
            via_as(2000, "hlr", 1),
            via_linkset(2000, "transit", 2),
            via_as(2002, "msc", 1),
        ],
        sccp: Some(sample_sccp()),
        content_routing: Some(sample_content(
            "buyer-a",
            python("on_imsi_route"),
            "sri-sm-np",
            python("on_np_dip"),
        )),
        ..flat()
    }
}

fn sample() -> Config {
    Config::parse(sample_raw()).expect("sample parses")
}

fn refusal(raw: RawFile) -> String {
    Config::parse(raw).unwrap_err().to_string()
}

// ── Configuration ───────────────────────────────────────────────────────────

#[test]
fn parses_the_sample() {
    let cfg = Config::parse(sample_raw()).expect("sample parses");
    assert_eq!(cfg.associations.len(), 5);
    let t = cfg.default_tenant().expect("default tenant");
    assert_eq!(t.resolved_point_code().unwrap().value(), 1000);
    assert_eq!(t.application_servers.len(), 2);
    assert_eq!(t.linksets.len(), 1);
    assert_eq!(t.mtp3_routes.len(), 3);
    assert_eq!(t.sccp.gtt_groups.len(), 2);
    assert_eq!(t.sccp.gtt.len(), 2);
    assert_eq!(t.sccp.gt_conversion.plmn_map.len(), 2);
    let cr = t.content_routing.as_ref().unwrap();
    assert_eq!(cr.protocol, ContentProtocol::GsmMap);
    assert_eq!(cr.rules.len(), 4);
}

#[test]
fn tenancy_is_implicit_default() {
    let cfg = sample();
    assert_eq!(cfg.tenants.len(), 1);
    assert!(cfg.tenant(DEFAULT_TENANT).is_some());
}

#[test]
fn tcap_defaults_when_absent() {
    let cfg = sample();
    assert_eq!(cfg.tcap.invoke_timer_ms, 15_000);
    assert_eq!(cfg.tcap.dialogue_timer_ms, 30_000);
    assert_eq!(cfg.tcap.max_dialogues, 100_000);
}

#[test]
fn tcap_block_parses() {
    let cfg = Config::parse(RawFile {
        tcap: Some(Tcap { invoke_timer_ms: 5000, dialogue_timer_ms: 12000, max_dialogues: 512 }),
        sccp: Some(Sccp { local_ssns: vec![6, 8], ..Default::default() }),
        ..flat()
    })
    .unwrap();
    assert_eq!(cfg.tcap.invoke_timer_ms, 5000);
    assert_eq!(cfg.tcap.dialogue_timer_ms, 12000);
    assert_eq!(cfg.tcap.max_dialogues, 512);
}

fn tenant(point_code: u32, variant: Variant, rc: u32, dpc: u32) -> Tenant {
    Tenant {
        point_code: RawPc(point_code),
        variant,
        network_indicator: NetworkIndicator::International,
        application_servers: vec![server("as1", TrafficMode::Override, rc, &["a1"])],
        linksets: vec![],
        mtp3_routes: vec![via_as(dpc, "as1", 1)],
        sccp: Sccp::default(),
        content_routing: None,
        isup_screening: None,
    }
}

fn multi_tenant_cfg() -> Config {
    let mut tenants: NameMap<Tenant> = NameMap::new();
    tenants.insert("partner-ansi".into(), tenant(5000, Variant::Ansi, 20, 6000));
    tenants.insert("default".into(), tenant(1000, Variant::Itu, 10, 2000));
    Config::parse(RawFile {
        associations: vec![m3ua("a1", "10.0.0.1")],
        tenants: Some(tenants),
        ..raw()
    })
    .unwrap()
}

#[test]
fn explicit_tenants_normalise() {
    let cfg = multi_tenant_cfg();
    assert_eq!(cfg.tenants.len(), 2);
    assert_eq!(cfg.tenant("partner-ansi").unwrap().variant, Variant::Ansi);
    assert_eq!(
        cfg.tenant("partner-ansi").unwrap().point_code.resolve(Variant::Ansi).unwrap().value(),
        5000
    );
}

#[test]
fn round_trips_via_reparse() {
    let cfg = sample();
    let t = cfg.default_tenant().unwrap();
    assert_eq!(t.mtp3_routes.len(), 3);
    let cfg2 = sample();
    assert_eq!(
        cfg.default_tenant().unwrap().linksets.len(),
        cfg2.default_tenant().unwrap().linksets.len()
    );
}

#[test]
fn rejects_unknown_linkset_ref() {
    let err = Config::parse(RawFile {
        associations: vec![m2pa("x1", "10.0.0.1", 3000)],
        linksets: vec![linkset("ls", &[("x1", 0)])],
        mtp3_routes: vec![via_linkset(2000, "nope", 1)],
        ..flat()
    })
    .unwrap_err();
    assert!(matches!(err, Error::Validation(_)));
    assert!(err.to_string().contains("unknown linkset"));
}

#[test]
fn rejects_unknown_as_ref() {
    let err = refusal(RawFile {
        associations: vec![m3ua("a1", "10.0.0.1")],
        application_servers: vec![server("as1", TrafficMode::Override, 1, &["a1"])],
        mtp3_routes: vec![via_as(2000, "nope", 1)],
        ..flat()
    });
    assert!(err.contains("unknown application_server"));
}

#[test]
fn rejects_route_with_both_as_and_linkset() {
    let err = refusal(RawFile {
        associations: vec![m3ua("a1", "10.0.0.1"), m2pa("x1", "10.0.0.2", 3000)],
        application_servers: vec![server("as1", TrafficMode::Override, 1, &["a1"])],
        linksets: vec![linkset("ls", &[("x1", 0)])],
        mtp3_routes: vec![Mtp3Route {
            dpc: RawPc(2000),
            as_: Some("as1".into()),
            linkset: Some("ls".into()),
            priority: 1,
        }],
        ..flat()
    });
    assert!(err.contains("both `as:` and `linkset:`"));
}

#[test]
fn rejects_route_with_neither_as_nor_linkset() {
    let err = refusal(RawFile {
        mtp3_routes: vec![Mtp3Route {
            dpc: RawPc(2000),
            as_: None,
            linkset: None,
            priority: 1,
        }],
        ..flat()
    });
    assert!(err.contains("neither `as:` nor `linkset:`"));
}

#[test]
fn rejects_as_asp_that_is_not_m3ua() {
    let err = refusal(RawFile {
        associations: vec![m2pa("x1", "10.0.0.1", 3000)],
        application_servers: vec![server("as1", TrafficMode::Override, 1, &["x1"])],
        ..flat()
    });
    assert!(err.contains("served by m3ua ASPs"));
}

#[test]
fn rejects_linkset_link_that_is_not_m2pa() {
    let err = refusal(RawFile {
        associations: vec![m3ua("a1", "10.0.0.1")],
        linksets: vec![linkset("ls", &[("a1", 0)])],
        ..flat()
    });
    assert!(err.contains("carries m2pa links"));
}

#[test]
fn accepts_reserved_sua_association() {
    assert!(Config::parse(RawFile {
        associations: vec![Association {
            id: "s1".into(),
            adaptation: Adaptation::Sua,
            role: Role::Client,
            addrs: vec!["10.0.0.1".into()],
            port: 14001,
            adjacent_pc: None,
        }],
        ..flat()
    })
    .is_ok());
}

#[test]
fn rejects_unknown_association_ref() {
    let err = refusal(RawFile {
        associations: vec![m2pa("x1", "10.0.0.1", 3000)],
        linksets: vec![linkset("ls", &[("ghost", 0)])],
        ..flat()
    });
    assert!(err.contains("unknown association"));
}

#[test]
fn rejects_duplicate_linkset() {
    let err = refusal(RawFile {
        associations: vec![m2pa("x1", "10.0.0.1", 3000)],
        linksets: vec![linkset("ls", &[("x1", 0)]), linkset("ls", &[("x1", 1)])],
        ..flat()
    });
    assert!(err.contains("duplicate route destination"));
}

#[test]
fn rejects_point_code_out_of_range_for_variant() {
    assert!(Config::parse(RawFile { node: node(99999), ..raw() }).is_err());
}

#[test]
fn rejects_adjacent_point_code_out_of_range_for_variant() {
    let linked = |pc: u32| RawFile {
        associations: vec![m2pa("x1", "10.0.0.1", pc)],
        linksets: vec![Linkset {
            name: "ls".into(),
            links: vec![Link { assoc: "x1".into(), slc: 0 }],
        }],
        ..flat()
    };
    assert!(Config::parse(linked(16_383)).is_ok());
    assert!(refusal(linked(16_384)).contains("linkset `ls` link `x1` adjacent_pc: "));
    // Without a linkset that it belongs to, it need only fit the widest variant.
    assert!(Config::parse(RawFile { linksets: vec![], ..linked(16_384) }).is_ok());
}

#[test]
fn rejects_unknown_operation_name() {
    let err = refusal(RawFile {
        content_routing: Some(ContentRouting {
            protocol: ContentProtocol::GsmMap,
            address_tables: vec![],
            imsi_tables: vec![],
            rules: vec![rule(
                "bad",
                ContentMatch { operation: ops(&["not-an-op"]), ..Default::default() },
                ContentAction { screen: Some(true), ..Default::default() },
            )],
        }),
        ..flat()
    });
    assert!(err.contains("unknown operation"));
}

#[test]
fn rejects_operation_of_another_protocol() {
    let with = |protocol: ContentProtocol, op: &str| RawFile {
        content_routing: Some(ContentRouting {
            protocol,
            address_tables: vec![],
            imsi_tables: vec![],
            rules: vec![rule(
                "r",
                ContentMatch { operation: ops(&[op]), ..Default::default() },
                ContentAction { screen: Some(true), ..Default::default() },
            )],
        }),
        ..flat()
    };
    assert!(Config::parse(with(ContentProtocol::GsmMap, "sri-sm")).is_ok());
    assert!(Config::parse(with(ContentProtocol::GsmCap, "connect")).is_ok());
    assert!(refusal(with(ContentProtocol::GsmMap, "initial-dp"))
        .contains("content rule `r` operation `initial-dp` is not a gsm-map operation"));
    assert!(refusal(with(ContentProtocol::GsmCap, "sri-sm"))
        .contains("content rule `r` operation `sri-sm` is not a gsm-cap operation"));
}

#[test]
fn rejects_mixed_flat_and_tenants() {
    let mut tenants: NameMap<Tenant> = NameMap::new();
    tenants.insert(
        "default".into(),
        Tenant {
            application_servers: vec![],
            mtp3_routes: vec![],
            ..tenant(1000, Variant::Itu, 1, 1)
        },
    );
    let err = refusal(RawFile {
        mtp3_routes: vec![via_linkset(2000, "ls", 1)],
        tenants: Some(tenants),
        ..raw()
    });
    assert!(err.contains("cannot be mixed"));
}

// ── Content routing ─────────────────────────────────────────────────────────

fn engine() -> ContentEngine {
    ContentEngine::compile(&sample_content(
        "customer-a",
        ContentAction { screen: Some(true), ..Default::default() },
        "sri-sm-route",
        ContentAction { route: Some(to_dpc(2000, 6)), ..Default::default() },
    ))
}

#[test]
fn operation_kebab_roundtrip() {
    assert_eq!(Operation::from_kebab("sri-sm"), Some(Operation::SriSm));
    assert_eq!(Operation::SriSm.op_code(), 45);
    assert_eq!(Operation::UpdateLocation.op_code(), 2);
    assert_eq!(Operation::InitialDp.op_code(), 0);
    assert_eq!(Operation::from_kebab("bogus"), None);
}

#[test]
fn imsi_in_table_match() {
    let e = engine();
    let view = MapView {
        operation: Some(Operation::UpdateLocation),
        imsi: Some("001010000000042".into()),
        ..Default::default()
    };
    let hit = e.evaluate(&view).expect("hit");
    assert_eq!(hit.rule, "customer-a-home");
    match hit.action {
        Action::Route { target, .. } => {
            assert_eq!(target.dpc.unwrap().0, 2005);
            assert_eq!(target.ssn, Some(6));
        }
        _ => panic!("expected Route"),
    }
}

fn update_location_payload() -> Vec<u8> {
    let imsi: rasn::types::OctetString =
        vec![0x00, 0x01, 0x01, 0x00, 0x00, 0x00, 0x40, 0xF2].into();
    let number: rasn::types::OctetString = vec![0x91, 0x15, 0x55, 0x01, 0x80].into();
    let arg = gsm_map::operations::location::UpdateLocationArg {
        imsi,
        msc_number: number.clone(),
        vlr_number: number,
        lmsi: None,
        vlr_capability: None,
    };
    let begin = tcap::TcapMessage::Begin(tcap::Begin {
        otid: vec![0x11, 0x22, 0x33, 0x44].into(),
        dialogue_portion: None,
        components: Some(vec![tcap::Component::Invoke(tcap::Invoke {
            invoke_id: 1,
            linked_id: None,
            operation_code: tcap::OperationCode::Local(gsm_map::op_codes::UPDATE_LOCATION),
            parameter: Some(rasn::types::Any::new(rasn::ber::encode(&arg).unwrap())),
        })]),
    });
    let gt = |d: &str| sccp::GlobalTitle::Gt0100 {
        translation_type: 0,
        numbering_plan: 1,
        encoding_scheme: 1,
        nature_of_address: 4,
        digits: d.to_string(),
    };
    sccp::UnitData::new(
        sccp::SccpAddress::with_gt(gt("15550100"), Some(sccp::SubsystemNumber::Hlr)),
        sccp::SccpAddress::with_gt(gt("15550180"), Some(sccp::SubsystemNumber::Msc)),
        tcap::encode(&begin).unwrap(),
    )
    .encode()
    .unwrap()
}

#[test]
fn content_routing_fires_on_a_wire_decoded_view() {
    let sccp = Unitdata::decode(&update_location_payload()).unwrap();
    let view = decode_map_view(&sccp).expect("a MAP view decodes off the wire bytes");
    assert_eq!(view.operation, Some(Operation::UpdateLocation));
    assert_eq!(view.imsi.as_deref(), Some("001010000000042"));
    assert_eq!(view.cdpa_gt.as_deref(), Some("15550100"));
    assert_eq!(view.cgpa_gt.as_deref(), Some("15550180"));

    let hit = engine().evaluate(&view).expect("the customer-a-home rule fires");
    assert_eq!(hit.rule, "customer-a-home");
}

#[test]
fn imsi_prefix_matches_and_screens() {
    let e = engine();
    let view = MapView {
        operation: Some(Operation::SriSm),
        imsi: Some("001990000000001".into()),
        ..Default::default()
    };
    let hit = e.evaluate(&view).expect("hit");
    assert_eq!(hit.rule, "imsi-steer");
    assert_eq!(hit.action, Action::Screen);
}

#[test]
fn operation_set_match_first_wins() {
    let e = engine();
    let view = MapView {
        operation: Some(Operation::SriSm),
        cdpa_gt: Some("15550142".into()),
        ..Default::default()
    };
    let hit = e.evaluate(&view).expect("hit");
    assert_eq!(hit.rule, "mt-sms-home-route");
    match hit.action {
        Action::Route { target, rewrite_cdpa_gt } => {
            assert_eq!(target.group.as_deref(), Some("ag-router"));
            assert_eq!(rewrite_cdpa_gt.as_deref(), Some("15550100"));
        }
        _ => panic!("expected Route"),
    }
}

#[test]
fn plain_sri_sm_routes() {
    let e = engine();
    let view = MapView {
        operation: Some(Operation::SriSm),
        cdpa_gt: Some("19995550000".into()),
        ..Default::default()
    };
    let hit = e.evaluate(&view).expect("hit");
    assert_eq!(hit.rule, "sri-sm-route");
    match hit.action {
        Action::Route { target, .. } => {
            assert_eq!(target.dpc.map(|d| d.0), Some(2000));
            assert_eq!(target.ssn, Some(6));
        }
        _ => panic!("expected Route"),
    }
}

#[test]
fn no_match_returns_none() {
    let e = engine();
    let view = MapView { operation: Some(Operation::Connect), ..Default::default() };
    assert!(e.evaluate(&view).is_none());
}

// ── MTP3 routes ─────────────────────────────────────────────────────────────

fn sample_routes() -> (RouteResolver, RouteState, Variant) {
    let cfg = sample();
    let tenant = cfg.default_tenant().unwrap();
    let resolver = RouteResolver::build(tenant, &cfg.associations);
    let mut state = RouteState::default();
    for a in &tenant.application_servers {
        state.set_as_up(&a.name);
    }
    for ls in &tenant.linksets {
        state.set_linkset_up(&ls.name);
    }
    (resolver, state, tenant.variant)
}

fn pc(v: u32, variant: Variant) -> PointCode {
    PointCode::from_value(v, variant).unwrap()
}

#[test]
fn implicit_adjacent_route() {
    let (r, state, var) = sample_routes();
    assert_eq!(
        r.resolve(pc(3000, var), &state),
        Some(Destination::Linkset("transit".into()))
    );
    assert_eq!(
        r.resolve(pc(3001, var), &state),
        Some(Destination::Linkset("transit".into()))
    );
}

#[test]
fn primary_as_then_alternate_linkset_failover_and_restore() {
    let (r, mut state, var) = sample_routes();
    assert_eq!(
        r.resolve(pc(2000, var), &state),
        Some(Destination::ApplicationServer("hlr".into()))
    );
    state.set_as_down("hlr");
    assert_eq!(
        r.resolve(pc(2000, var), &state),
        Some(Destination::Linkset("transit".into()))
    );
    state.set_as_up("hlr");
    assert_eq!(
        r.resolve(pc(2000, var), &state),
        Some(Destination::ApplicationServer("hlr".into()))
    );
}

#[test]
fn pause_prohibits_then_resume_restores() {
    let (r, mut state, var) = sample_routes();
    let dpc = pc(2000, var);
    assert!(r.resolve(dpc, &state).is_some());
    state.apply_event(&Mtp3Event::Pause { affected: dpc });
    assert!(state.is_prohibited(dpc));
    assert!(r.resolve(dpc, &state).is_none());
    state.apply_event(&Mtp3Event::Resume { affected: dpc });
    assert_eq!(
        r.resolve(dpc, &state),
        Some(Destination::ApplicationServer("hlr".into()))
    );
}

#[test]
fn status_sets_congestion_level() {
    let (r, mut state, var) = sample_routes();
    let dpc = pc(2000, var);
    state.apply_event(&Mtp3Event::Status {
        affected: dpc,
        status: Mtp3Status::Congested { level: 2 },
    });
    assert_eq!(state.congestion(dpc), 2);
    assert!(r.resolve(dpc, &state).is_some());
}

#[test]
fn no_route_for_unknown_dpc() {
    let (r, state, var) = sample_routes();
    assert!(r.resolve(pc(9999, var), &state).is_none());
    assert!(!r.has_route(pc(9999, var)));
}

#[test]
fn primary_down_and_alternate_down_yields_none() {
    let (r, mut state, var) = sample_routes();
    state.set_as_down("hlr");
    state.set_linkset_down("transit");
    assert!(r.resolve(pc(2000, var), &state).is_none());
}

#[test]
fn set_all_down_clears_availability() {
    let (r, mut state, var) = sample_routes();
    assert!(r.resolve(pc(2000, var), &state).is_some());
    state.set_all_down();
    assert!(r.resolve(pc(2000, var), &state).is_none());
    assert!(!state.is_as_up("hlr"));
    assert!(!state.is_linkset_up("transit"));
}

// ── Global-title translation ────────────────────────────────────────────────

#[test]
fn prefix_match_precedence() {
    let sccp = sample_sccp();
    let mut r = GttResolver::compile(&sccp);
    let sel = GttSelector {
        digits: "15550142".into(),
        gti: Some(4),
        tt: Some(0),
        np: Some(1),
        nai: Some(4),
    };
    assert_eq!(r.translate(&sel), Some(GttResult::Dpc { dpc: 2000, ssn: 6 }));

    let sel2 = GttSelector::from_digits("15559999");
    assert_eq!(r.translate(&sel2), Some(GttResult::Dpc { dpc: 2000, ssn: 6 }));

    let sel3 = GttSelector::from_digits("44770000");
    assert_eq!(r.translate(&sel3), None);
}

#[test]
fn group_cost_selects_primary() {
    let sccp = sample_sccp();
    let r = GttResolver::compile(&sccp);
    let order = r.group_cost_order("ag-hlr").unwrap();
    assert_eq!(order, &[(2000, 6), (2001, 6)]);
}

#[test]
fn group_share_round_robins() {
    let sccp = sample_sccp();
    let mut r = GttResolver::compile(&sccp);
    let a = r.select_group("ag-router").unwrap();
    let b = r.select_group("ag-router").unwrap();
    let c = r.select_group("ag-router").unwrap();
    assert_ne!(a, b);
    assert_eq!(a, c);
}

#[test]
fn e214_to_e164_via_plmn_map() {
    let sccp = sample_sccp();
    let conv = GtConverter::from(&sccp.gt_conversion);
    assert_eq!(conv.e214_to_e164("0010123456").as_deref(), Some("1555123456"));
    assert_eq!(conv.e214_to_e164("0010299887").as_deref(), Some("1555299887"));
    assert_eq!(conv.e214_to_e164("9999912345"), None);
}

#[test]
fn e164_to_e214_reverse() {
    let sccp = sample_sccp();
    let conv = GtConverter::from(&sccp.gt_conversion);
    assert_eq!(conv.e164_to_e214("1555123456").as_deref(), Some("0010123456"));
}

// ── Tenancy ─────────────────────────────────────────────────────────────────

#[test]
fn implicit_default_present() {
    let cfg = sample();
    let ten = Tenancy::build(&cfg);
    assert_eq!(ten.len(), 1);
    assert!(ten.default_tenant().is_some());
    assert_eq!(ten.default_tenant().unwrap().point_code, 1000);
}

#[test]
fn cross_tenant_marks_conversion_when_variants_differ() {
    let cfg = multi_tenant_cfg();
    let ten = Tenancy::build(&cfg);
    let x = ten.cross_tenant("default", "partner-ansi").unwrap();
    assert!(x.conversion);
    let y = ten.cross_tenant("default", "default").unwrap();
    assert!(!y.conversion);
}

#[test]
fn per_tenant_tables_are_isolated() {
    let cfg = multi_tenant_cfg();
    let ten = Tenancy::build(&cfg);
    let d = ten.get("default").unwrap();
    let p = ten.get("partner-ansi").unwrap();
    let dpc_2000 = PointCode::from_value(2000, Variant::Itu).unwrap();
    let dpc_6000 = PointCode::from_value(6000, Variant::Ansi).unwrap();
    assert!(d.routes.has_route(dpc_2000));
    assert!(!d.routes.has_route(PointCode::from_value(6000, Variant::Itu).unwrap()));
    assert!(p.routes.has_route(dpc_6000));
}

// ── The router ──────────────────────────────────────────────────────────────

fn router() -> Router {
    Router::new(&sample())
}

fn routed(r: &mut Router, msg: Inbound) -> RouteDecision {
    let mut m = Metrics::new();
    r.route(&mut m, &msg)
}

#[test]
fn transit_dpc_routes_on_application_server() {
    let mut r = router();
    let d = routed(&mut r, Inbound { dpc: 2000, ..Default::default() });
    assert_eq!(
        d,
        RouteDecision::Route { via: Destination::ApplicationServer("hlr".into()) }
    );
}

#[test]
fn transit_no_route_drops() {
    let mut r = router();
    let d = routed(&mut r, Inbound { dpc: 9999, ..Default::default() });
    assert!(matches!(d, RouteDecision::Drop { .. }));
}

#[test]
fn local_ssn_terminates() {
    let mut r = router();
    let d = routed(&mut r, Inbound { dpc: 1000, called_ssn: Some(6), ..Default::default() });
    assert_eq!(d, RouteDecision::Local);
}

#[test]
fn gtt_translates_to_dpc() {
    let mut r = router();
    let d = routed(
        &mut r,
        Inbound {
            dpc: 1000,
            cdpa: Some(GttSelector::from_digits("15559999")),
            ..Default::default()
        },
    );
    match d {
        RouteDecision::RouteTo { dpc, ssn, via } => {
            assert_eq!(dpc, 2000);
            assert_eq!(ssn, 6);
            assert_eq!(via, Some(Destination::ApplicationServer("hlr".into())));
        }
        other => panic!("expected RouteTo, got {other:?}"),
    }
}

#[test]
fn e214_pre_conversion_before_gtt() {
    let mut r = router();
    let d = routed(
        &mut r,
        Inbound {
            dpc: 1000,
            cdpa: Some(GttSelector {
                digits: "0010123456".into(),
                np: Some(3),
                ..Default::default()
            }),
            ..Default::default()
        },
    );
    match d {
        RouteDecision::RouteTo { dpc, .. } => assert_eq!(dpc, 2000),
        other => panic!("expected RouteTo, got {other:?}"),
    }
}

#[test]
fn content_rule_overrides_with_python() {
    let mut r = router();
    let d = routed(
        &mut r,
        Inbound {
            dpc: 1000,
            cdpa: Some(GttSelector::from_digits("15559999")),
            view: Some(MapView {
                operation: Some(Operation::SriSm),
                cdpa_gt: Some("19990001".into()),
                ..Default::default()
            }),
            ..Default::default()
        },
    );
    assert_eq!(d, RouteDecision::Python { hook: "on_np_dip".into() });
}

#[test]
fn content_rule_routes_to_dpc() {
    let mut r = router();
    let d = routed(
        &mut r,
        Inbound {
            dpc: 1000,
            view: Some(MapView {
                operation: Some(Operation::UpdateLocation),
                imsi: Some("001010000000042".into()),
                ..Default::default()
            }),
            ..Default::default()
        },
    );
    match d {
        RouteDecision::RouteTo { dpc, ssn, .. } => {
            assert_eq!(dpc, 2005);
            assert_eq!(ssn, 6);
        }
        other => panic!("expected RouteTo, got {other:?}"),
    }
}

#[test]
fn routing_counts_translations_errors_and_hits() {
    let mut r = router();
    let mut m = Metrics::new();
    let to = |digits: &str| Inbound {
        dpc: 1000,
        cdpa: Some(GttSelector::from_digits(digits)),
        ..Default::default()
    };
    r.route(&mut m, &to("15559999"));
    assert_eq!(gtt_translations(&m, GttResultKind::Dpc), 1);
    r.route(&mut m, &to("44770000"));
    assert_eq!(gtt_errors(&m, GttError::NoTranslation), 1);
    r.route(&mut m, &Inbound { dpc: 1000, called_ssn: Some(200), ..Default::default() });
    assert_eq!(gtt_errors(&m, GttError::SsnProhibited), 1);
    r.route(
        &mut m,
        &Inbound {
            view: Some(MapView {
                operation: Some(Operation::UpdateLocation),
                imsi: Some("001010000000042".into()),
                ..Default::default()
            }),
            ..to("15559999")
        },
    );
    assert_eq!(content_rule_hits(&m, "buyer-a-home", "route"), 1);
}

// ── Laws on examples ────────────────────────────────────────────────────────

#[test]
fn an_unrecognised_operation_has_no_view() {
    let view = |code: tcap::OperationCode, end: bool| {
        let components = Some(vec![tcap::Component::Invoke(tcap::Invoke {
            invoke_id: 1,
            linked_id: None,
            operation_code: code,
            parameter: None,
        })]);
        let message = if end {
            tcap::TcapMessage::End(tcap::End {
                dtid: vec![1, 2, 3, 4].into(),
                dialogue_portion: None,
                components,
            })
        } else {
            tcap::TcapMessage::Begin(tcap::Begin {
                otid: vec![1, 2, 3, 4].into(),
                dialogue_portion: None,
                components,
            })
        };
        let mut sccp = Unitdata::decode(&update_location_payload()).unwrap();
        sccp.data = tcap::encode(&message).unwrap();
        decode_map_view(&sccp)
    };
    let known = view(tcap::OperationCode::Local(45), false).expect("a recognised operation");
    assert_eq!(known.operation, Some(Operation::SriSm));
    assert_eq!(known.cdpa_gt.as_deref(), Some("15550100"));
    assert_eq!(view(tcap::OperationCode::Local(67), false), None);
    assert_eq!(view(tcap::OperationCode::Local(9999), false), None);
    assert_eq!(view(tcap::OperationCode::Local(45), true), None);
}

#[test]
fn the_listed_point_codes_are_the_routed_ones() {
    let route = |dpc: u32, to: Option<&str>| Mtp3Route {
        dpc: RawPc(dpc),
        as_: None,
        linkset: to.map(|s| s.to_string()),
        priority: 1,
    };
    let cfg = Config::from_raw(RawFile {
        associations: vec![
            m2pa("in-a", "10.0.0.1", 3001),
            m2pa("loose", "10.0.0.2", 3002),
            m3ua("other", "10.0.0.3"),
        ],
        linksets: vec![linkset("transit", &[("in-a", 0), ("other", 1)])],
        mtp3_routes: vec![
            route(2005, Some("transit")),
            route(2000, Some("transit")),
            route(2005, Some("transit")),
            route(2009, None),
        ],
        ..flat()
    })
    .unwrap();
    let mut r = RouteResolver::build(cfg.default_tenant().unwrap(), &cfg.associations);
    assert_eq!(r.dpcs(), vec![2000, 2005, 3001]);
    r.add(2009, Destination::Linkset("transit".into()), 1);
    r.add(2000, Destination::Linkset("transit".into()), 7);
    r.add(2009, Destination::Linkset("transit".into()), 1);
    assert_eq!(r.dpcs(), vec![2000, 2005, 2009, 3001]);
}

fn member(dpc: u32, cost: Option<u8>, weight: Option<u8>) -> GroupMember {
    GroupMember { dpc: RawPc(dpc), ssn: 6, cost, weight }
}

fn with_group(mode: GroupMode, members: Vec<GroupMember>) -> GttResolver {
    GttResolver::compile(&Sccp {
        gtt_groups: vec![GttGroup { name: "g".into(), mode, members }],
        ..Default::default()
    })
}

#[test]
fn the_cost_order_is_stable() {
    let mut r = with_group(
        GroupMode::Cost,
        vec![
            member(1, None, None),
            member(2, Some(20), None),
            member(3, Some(10), None),
            member(4, Some(255), None),
            member(5, Some(10), None),
            member(6, Some(20), None),
        ],
    );
    let order: Vec<u32> = r.group_cost_order("g").unwrap().iter().map(|a| a.0).collect();
    assert_eq!(order, vec![3, 5, 2, 6, 1, 4]);
    for _ in 0..4 {
        assert_eq!(r.select_group("g"), Some((3, 6)));
    }
    assert_eq!(r.group_cost_order("h"), None);
    assert_eq!(r.select_group("h"), None);
    let mut none = with_group(GroupMode::Cost, vec![]);
    assert_eq!(none.group_cost_order("g"), Some(&vec![]));
    assert_eq!(none.select_group("g"), None);
    assert_eq!(with_group(GroupMode::Share, vec![]).group_cost_order("g"), None);
}

#[test]
fn a_round_gives_each_member_its_weight() {
    let mut r = with_group(
        GroupMode::Share,
        vec![member(1, None, Some(3)), member(2, None, Some(0)), member(3, None, None)],
    );
    let given: Vec<u32> = (0..25).map(|_| r.select_group("g").unwrap().0).collect();
    for k in 0..20 {
        let round = &given[k..k + 5];
        let times = |d: u32| round.iter().filter(|x| **x == d).count();
        assert_eq!((times(1), times(2), times(3)), (3, 1, 1));
        assert_eq!(given[k], given[k + 5]);
    }
    assert_eq!(with_group(GroupMode::Share, vec![]).select_group("g"), None);
}
