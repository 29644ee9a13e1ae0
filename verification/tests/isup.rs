use itu_isup::{
    calling_party_category, transmission_medium_requirement, CauseIndicators, Message, MessageType,
    Number, Parameter,
};
use siphon_sigtran::config::{IsupScreening, ScreenAction, ScreenMatch, ScreenRule};
use siphon_sigtran::isup::{message_type_from_name, IsupScreen, Screened};
use siphon_sigtran::metrics::ScreenReason;

fn rule(name: &str, m: ScreenMatch, action: ScreenAction) -> ScreenRule {
    ScreenRule { name: name.to_string(), match_: m, action }
}

fn iam(called: &str, calling: &str) -> Vec<u8> {
    Message::iam(
        1,
        0x00,
        0x2000,
        calling_party_category::ORDINARY,
        transmission_medium_requirement::SPEECH,
        &Number::called(3, 1, false, called),
    )
    .unwrap()
    .with_optional(
        Parameter::calling_party_number(&Number::calling(3, 1, false, 0, 3, calling)).unwrap(),
    )
    .encode()
    .unwrap()
}

#[test]
fn message_type_from_name_maps_named_types() {
    assert_eq!(message_type_from_name("iam"), Some(MessageType::Iam.value()));
    assert_eq!(message_type_from_name("REL"), Some(MessageType::Rel.value()));
    assert_eq!(message_type_from_name("cgba"), Some(MessageType::Cgba.value()));
    assert_eq!(message_type_from_name("not-a-type"), None);
    assert_eq!(message_type_from_name("unknown"), None);
}

#[test]
fn blocks_matching_called_prefix() {
    let scr = IsupScreen::compile(&IsupScreening {
        default: ScreenAction::Allow,
        rules: vec![rule(
            "premium",
            ScreenMatch {
                message_type: Some("iam".into()),
                called_prefix: Some("1999".into()),
                calling_prefix: None,
            },
            ScreenAction::Block,
        )],
    });
    assert_eq!(
        scr.screen(&iam("1999555", "1555000")),
        Screened::BlockRule { rule: "premium".into() }
    );
    assert_eq!(scr.screen(&iam("1555555", "1555000")), Screened::Pass);
}

#[test]
fn message_type_gate_narrows_the_rule() {
    let scr = IsupScreen::compile(&IsupScreening {
        default: ScreenAction::Allow,
        rules: vec![rule(
            "rel-only",
            ScreenMatch {
                message_type: Some("rel".into()),
                called_prefix: None,
                calling_prefix: None,
            },
            ScreenAction::Block,
        )],
    });
    assert_eq!(scr.screen(&iam("1555555", "1555000")), Screened::Pass);
    let rel = Message::release(1, &CauseIndicators::new(1, 16)).encode().unwrap();
    assert_eq!(
        scr.screen(&rel),
        Screened::BlockRule { rule: "rel-only".into() }
    );
}

#[test]
fn calling_prefix_matches_optional_parameter() {
    let scr = IsupScreen::compile(&IsupScreening {
        default: ScreenAction::Allow,
        rules: vec![rule(
            "cli",
            ScreenMatch {
                message_type: None,
                called_prefix: None,
                calling_prefix: Some("1555".into()),
            },
            ScreenAction::Block,
        )],
    });
    assert_eq!(
        scr.screen(&iam("1999555", "1555000")),
        Screened::BlockRule { rule: "cli".into() }
    );
    assert_eq!(scr.screen(&iam("1999555", "1999000")), Screened::Pass);
}

#[test]
fn default_block_drops_unmatched() {
    let scr = IsupScreen::compile(&IsupScreening {
        default: ScreenAction::Block,
        rules: vec![rule(
            "allow-national",
            ScreenMatch {
                message_type: None,
                called_prefix: Some("1555".into()),
                calling_prefix: None,
            },
            ScreenAction::Allow,
        )],
    });
    assert_eq!(scr.screen(&iam("1555555", "1555000")), Screened::Pass);
    assert_eq!(scr.screen(&iam("1999555", "1555000")), Screened::BlockDefault);
}

#[test]
fn decode_failure_takes_the_default_action() {
    let garbage = vec![0xFF, 0xFF, 0xFF, 0xFF];
    let block = IsupScreen::compile(&IsupScreening {
        default: ScreenAction::Block,
        rules: vec![],
    });
    assert!(matches!(block.screen(&garbage), Screened::BlockUndecoded { .. }));
    let allow = IsupScreen::compile(&IsupScreening {
        default: ScreenAction::Allow,
        rules: vec![],
    });
    assert!(matches!(allow.screen(&garbage), Screened::PassUndecoded { .. }));
}

#[test]
fn reason_classes_map_to_metric() {
    assert_eq!(
        Screened::BlockRule { rule: "x".into() }.reason(),
        Some(ScreenReason::Rule)
    );
    assert_eq!(Screened::BlockDefault.reason(), Some(ScreenReason::Default));
    assert_eq!(
        Screened::BlockUndecoded { error: "e".into() }.reason(),
        Some(ScreenReason::DecodeError)
    );
    assert_eq!(Screened::Pass.reason(), None);
    assert_eq!(Screened::PassUndecoded { error: "e".into() }.reason(), None);
}
