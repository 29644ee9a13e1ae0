use siphon_sigtran::config::TrafficMode;
use siphon_sigtran::transport::association::{
    next_status, on_link_status, sg_step, AspState, LinkStatus, M2paState, SgAction, SignalKind,
};
use siphon_sigtran::transport::registry::choose_egress;
use siphon_sigtran::transport::wire::{m3ua_control, sua_control, Control};

#[test]
fn alignment_reaches_in_service_between_two_endpoints() {
    let mut a = M2paState::NotAligned;
    let mut b = M2paState::NotAligned;
    let mut a_out = vec![LinkStatus::Alignment];
    let mut b_out = vec![LinkStatus::Alignment];
    for _ in 0..8 {
        let (mut na, mut nb) = (Vec::new(), Vec::new());
        for s in b_out.drain(..) {
            a = on_link_status(a, s);
            if let Some(n) = next_status(a) {
                na.push(n);
            }
        }
        for s in a_out.drain(..) {
            b = on_link_status(b, s);
            if let Some(n) = next_status(b) {
                nb.push(n);
            }
        }
        a_out = na;
        b_out = nb;
        if a == M2paState::InService && b == M2paState::InService {
            break;
        }
    }
    assert_eq!(a, M2paState::InService);
    assert_eq!(b, M2paState::InService);
}

#[test]
fn override_picks_first_active() {
    assert_eq!(choose_egress(TrafficMode::Override, &vec![true, true], 0), vec![0]);
    assert_eq!(choose_egress(TrafficMode::Override, &vec![false, true], 9), vec![1]);
    assert!(choose_egress(TrafficMode::Override, &vec![false, false], 0).is_empty());
}

#[test]
fn loadshare_keys_on_sls() {
    assert_eq!(choose_egress(TrafficMode::Loadshare, &vec![true, true], 0), vec![0]);
    assert_eq!(choose_egress(TrafficMode::Loadshare, &vec![true, true], 1), vec![1]);
    assert_eq!(choose_egress(TrafficMode::Loadshare, &vec![true, true], 2), vec![0]);
    assert_eq!(choose_egress(TrafficMode::Loadshare, &vec![false, true], 5), vec![1]);
}

#[test]
fn broadcast_hits_all_active() {
    assert_eq!(
        choose_egress(TrafficMode::Broadcast, &vec![true, false, true], 0),
        vec![0, 2]
    );
}

fn status_code(s: LinkStatus) -> m2pa::LinkState {
    m2pa::LinkState::from_u32(s.number()).unwrap()
}

fn reached(s: m2pa::M2paState) -> M2paState {
    match s {
        m2pa::M2paState::OutOfService => M2paState::OutOfService,
        m2pa::M2paState::NotAligned => M2paState::NotAligned,
        m2pa::M2paState::Aligned => M2paState::Aligned,
        m2pa::M2paState::Proving => M2paState::Proving,
        m2pa::M2paState::AlignedReady => M2paState::AlignedReady,
        m2pa::M2paState::InService => M2paState::InService,
    }
}

/// Every transition is the one that the codec's state machine makes: each state
/// is reached by its shortest path, then every status is tried.
#[test]
fn every_link_transition_is_the_codecs() {
    let paths: [Vec<LinkStatus>; 6] = [
        vec![],
        vec![LinkStatus::Alignment],
        vec![LinkStatus::Alignment, LinkStatus::Alignment],
        vec![LinkStatus::Alignment, LinkStatus::Alignment, LinkStatus::ProvingNormal],
        vec![
            LinkStatus::Alignment,
            LinkStatus::Alignment,
            LinkStatus::ProvingNormal,
            LinkStatus::Ready,
        ],
        vec![
            LinkStatus::Alignment,
            LinkStatus::Alignment,
            LinkStatus::ProvingNormal,
            LinkStatus::Ready,
            LinkStatus::Ready,
        ],
    ];
    let mut seen = Vec::new();
    for path in &paths {
        for n in 1..=9 {
            let last = LinkStatus::from_number(n).unwrap();
            let mut machine = m2pa::M2paStateMachine::new();
            let mut state = M2paState::OutOfService;
            for s in path {
                machine.on_link_status(status_code(*s));
                state = on_link_status(state, *s);
                assert_eq!(state, reached(machine.state()));
            }
            if !seen.contains(&state) {
                seen.push(state);
            }
            let after = machine.on_link_status(status_code(last));
            assert_eq!(on_link_status(state, last), reached(after));
        }
    }
    assert_eq!(seen.len(), 6);
}

/// Every gateway step is the one that the codec's state machine makes.
#[test]
fn every_gateway_step_is_the_codecs() {
    let data = m3ua::M3uaMessage::data(
        None,
        None,
        m3ua::ProtocolData::new(1, 2, 3, 2, 0, 0, vec![]),
        None,
    );
    let steps = [
        (SignalKind::AspUp, m3ua::M3uaMessage::asp_up(None, None)),
        (SignalKind::AspActive, m3ua::M3uaMessage::asp_active(None, Some(7))),
        (SignalKind::AspInactive, m3ua::M3uaMessage::asp_inactive(Some(7))),
        (SignalKind::AspDown, m3ua::M3uaMessage::asp_down(None)),
        (SignalKind::Heartbeat, m3ua::M3uaMessage::heartbeat(None)),
        (SignalKind::Data, data),
    ];
    for first in 0..steps.len() {
        for second in 0..steps.len() {
            for third in 0..steps.len() {
                let mut machine = m3ua::Asp::new();
                let mut state = AspState::Down;
                for i in [first, second, third] {
                    let (kind, message) = &steps[i];
                    let (next, action) = sg_step(state, *kind, message.routing_context());
                    match (action, machine.handle(message)) {
                        (SgAction::Reply(c), m3ua::AspAction::Reply(m)) => {
                            assert_eq!(m3ua_control(c), m.encode());
                        }
                        (SgAction::Deliver, m3ua::AspAction::Deliver) => {}
                        (SgAction::Ignore, m3ua::AspAction::Ignore) => {}
                        (ours, theirs) => panic!("{ours:?} against {theirs:?}"),
                    }
                    state = next;
                    let reached = match machine.state() {
                        m3ua::AspState::Down => AspState::Down,
                        m3ua::AspState::Inactive => AspState::Inactive,
                        m3ua::AspState::Active => AspState::Active,
                    };
                    assert_eq!(state, reached);
                }
            }
        }
    }
}

#[test]
fn control_messages_are_the_codecs() {
    assert_eq!(
        m3ua_control(Control::AspUp { asp_id: 1 }),
        m3ua::M3uaMessage::asp_up(Some(1), None).encode()
    );
    assert_eq!(
        sua_control(Control::AspUp { asp_id: 1 }),
        sua::SuaMessage::asp_up(Some(1), None).encode()
    );
}
