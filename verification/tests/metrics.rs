use siphon_sigtran::metrics::render;
use siphon_sigtran::metrics::{
    abort, aborts, active_dialogues, content_rule_hit, content_rule_hits, dialogue_closed,
    dialogue_opened, dialogue_timeout, dialogue_timeouts, gtt_error, gtt_errors, gtt_translation,
    gtt_translations, invoke_timeout, invoke_timeouts, isup_screened, loops_detected, msu,
    msu_total, mtp3mg_event, mtp3mg_events, record_isup_screened, record_loop, set_asp_state,
    set_association_state, set_linkset, set_m2pa_link_state, set_route_available, AbortSource, Dir,
    GttError, GttResultKind, LoopKind, M2paLinkState, Metrics, Mtp3MgKind, ScreenReason,
};

#[test]
fn loop_labels_are_stable() {
    assert_eq!(LoopKind::OwnOpc.label(), "own-opc");
    assert_eq!(LoopKind::RouteReflect.label(), "route-reflect");
    assert_eq!(LoopKind::HopCounter.label(), "hop-counter");
}

#[test]
fn screen_reason_labels_and_counter() {
    let mut m = Metrics::new();
    assert_eq!(ScreenReason::Rule.label(), "rule");
    assert_eq!(ScreenReason::Default.label(), "default");
    assert_eq!(ScreenReason::DecodeError.label(), "decode-error");
    let before = isup_screened(&m, ScreenReason::Rule);
    record_isup_screened(&mut m, ScreenReason::Rule);
    assert_eq!(isup_screened(&m, ScreenReason::Rule), before + 1);
    let dflt = isup_screened(&m, ScreenReason::Default);
    record_isup_screened(&mut m, ScreenReason::DecodeError);
    assert_eq!(isup_screened(&m, ScreenReason::Default), dflt);
}

#[test]
fn render_carries_every_family_header() {
    let text = render(&Metrics::new());
    for family in [
        "sigtran_loops_detected_total",
        "sigtran_isup_screened_total",
        "sigtran_msu_total",
        "sigtran_gtt_translations_total",
        "sigtran_gtt_errors_total",
        "sigtran_active_dialogues",
        "sigtran_dialogue_timeouts_total",
        "sigtran_abort_total",
        "sigtran_association_state",
        "sigtran_asp_state",
        "sigtran_linkset_available",
        "sigtran_linkset_active_links",
        "sigtran_m2pa_link_state",
        "sigtran_route_available",
        "sigtran_mtp3mg_events_total",
        "sigtran_content_rule_hits_total",
        "sigtran_invoke_timeouts_total",
    ] {
        assert!(
            text.contains(&format!("# TYPE {family} ")),
            "missing family {family}"
        );
    }
}

#[test]
fn msu_counter_increments_the_matching_cell() {
    let mut m = Metrics::new();
    let before = msu_total(&m, Dir::Rx, 3);
    msu(&mut m, Dir::Rx, 3);
    assert_eq!(msu_total(&m, Dir::Rx, 3), before + 1);
    let isup_before = msu_total(&m, Dir::Rx, 5);
    msu(&mut m, Dir::Tx, 5);
    assert_eq!(msu_total(&m, Dir::Rx, 5), isup_before);
}

#[test]
fn gtt_result_and_error_labels() {
    let mut m = Metrics::new();
    assert_eq!(GttResultKind::Group.label(), "group");
    assert_eq!(GttError::NoTranslation.label(), "no-translation");
    let before = gtt_translations(&m, GttResultKind::Dpc);
    gtt_translation(&mut m, GttResultKind::Dpc);
    assert_eq!(gtt_translations(&m, GttResultKind::Dpc), before + 1);
}

#[test]
fn active_dialogue_gauge_rises_and_falls() {
    let mut m = Metrics::new();
    let base = active_dialogues(&m);
    dialogue_opened(&mut m);
    dialogue_opened(&mut m);
    assert_eq!(active_dialogues(&m), base + 2);
    dialogue_closed(&mut m);
    assert_eq!(active_dialogues(&m), base + 1);
    dialogue_closed(&mut m);
    assert_eq!(active_dialogues(&m), base);
}

#[test]
fn labelled_families_round_trip() {
    let mut m = Metrics::new();
    set_association_state(&mut m, "hlr-a", "m3ua", 2);
    set_asp_state(&mut m, "hlr-a", "hlr", true);
    set_linkset(&mut m, "transit", true, 2);
    set_m2pa_link_state(&mut m, "xit-1", M2paLinkState::InService);
    set_route_available(&mut m, 2000, true);
    mtp3mg_event(&mut m, 2000, Mtp3MgKind::Pause);
    content_rule_hit(&mut m, "sri-sm-np", "python");
    content_rule_hit(&mut m, "sri-sm-np", "python");
    invoke_timeout(&mut m, 45);

    assert_eq!(mtp3mg_events(&m, 2000, Mtp3MgKind::Pause), 1);
    assert_eq!(content_rule_hits(&m, "sri-sm-np", "python"), 2);
    assert_eq!(invoke_timeouts(&m, 45), 1);

    let text = render(&m);
    assert!(text.contains("sigtran_association_state{assoc=\"hlr-a\",adaptation=\"m3ua\"} 2"));
    assert!(text.contains("sigtran_route_available{dpc=\"2000\"} 1"));
    assert!(text.contains("sigtran_content_rule_hits_total{rule=\"sri-sm-np\",action=\"python\"} 2"));
}

#[test]
fn every_counter_starts_at_zero_and_counts_by_one() {
    let mut m = Metrics::new();
    record_loop(&mut m, LoopKind::HopCounter);
    gtt_error(&mut m, GttError::NoRoute);
    abort(&mut m, AbortSource::Provider);
    dialogue_timeout(&mut m);
    assert_eq!(loops_detected(&m, LoopKind::HopCounter), 1);
    assert_eq!(loops_detected(&m, LoopKind::OwnOpc), 0);
    assert_eq!(gtt_errors(&m, GttError::NoRoute), 1);
    assert_eq!(aborts(&m, AbortSource::Provider), 1);
    assert_eq!(aborts(&m, AbortSource::Local), 0);
    assert_eq!(dialogue_timeouts(&m), 1);
}

#[test]
fn each_family_has_one_header_before_its_samples() {
    let mut m = Metrics::new();
    msu(&mut m, Dir::Tx, 3);
    set_association_state(&mut m, "sigtran_msu_total", "# HELP x", 1);
    set_route_available(&mut m, 2000, true);
    mtp3mg_event(&mut m, 2000, Mtp3MgKind::Pause);
    content_rule_hit(&mut m, "a rule", "route");
    let text = render(&m);
    assert_eq!(text, render(&m));
    let mut family = String::new();
    let mut seen: Vec<String> = vec![];
    for line in text.lines() {
        if let Some(rest) = line.strip_prefix("# HELP ") {
            family = rest.split(' ').next().unwrap().to_string();
            assert!(!seen.contains(&family));
            seen.push(family.clone());
        } else if let Some(rest) = line.strip_prefix("# TYPE ") {
            let kind = if family.ends_with("_total") { "counter" } else { "gauge" };
            assert_eq!(rest, format!("{family} {kind}"));
        } else {
            let name = line.split(|c: char| c == ' ' || c == '{').next().unwrap();
            assert_eq!(name, family);
            assert!(!line.contains("tenant="));
        }
    }
    assert_eq!(seen.len(), 17);
    let units: Vec<&str> = text.lines().filter(|l| l.starts_with("sigtran_msu_total{")).collect();
    assert_eq!(units, vec!["sigtran_msu_total{dir=\"tx\",si=\"3\"} 1"]);
}
