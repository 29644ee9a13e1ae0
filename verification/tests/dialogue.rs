use siphon_sigtran::config::Tcap;
use siphon_sigtran::metrics::{
    aborts, active_dialogues, dialogue_timeouts, invoke_timeouts, AbortSource, Metrics,
};
use siphon_sigtran::python::command::{OriginationHandler, StagedInvoke, StagedResult};
use siphon_sigtran::python::node::{gt_address, StagedComponent};
use siphon_sigtran::python::{Node, PyDecoded};
use siphon_sigtran::sccp::message::Unitdata;
use siphon_sigtran::transaction::AbortBy;
use siphon_sigtran::transport::framing::{SI_ISUP, SI_SCCP};
use siphon_sigtran::transport::Msu;
use siphon_sigtran::{
    Dialogue, DialogueEngine, IncomingOp, OutgoingBegin, PeerComponent, PeerTurn,
    TerminationHandler,
};
use std::sync::{Arc, Mutex};

const CONTEXT: [u32; 8] = [0, 4, 0, 0, 1, 0, 25, 3];

/// What a scripted handler does on each leg, and what it saw.
#[derive(Clone, Copy)]
enum Plan {
    Reply,
    Fail,
    Hold,
    Silent,
    Refuse,
}

#[derive(Clone)]
struct Scripted {
    plan: Plan,
    seen: Arc<Mutex<Vec<String>>>,
    turns: Arc<Mutex<Vec<PeerTurn>>>,
}

impl Scripted {
    fn new(plan: Plan) -> Scripted {
        Scripted { plan, seen: Arc::new(Mutex::new(vec![])), turns: Arc::new(Mutex::new(vec![])) }
    }
    fn log(&self) -> Vec<String> {
        self.seen.lock().unwrap().clone()
    }
}

impl TerminationHandler for Scripted {
    fn on_begin(&self, dialogue: &mut Dialogue, op: &IncomingOp) {
        self.seen.lock().unwrap().push(format!(
            "begin {} {} {:?} {:?} {}",
            op.operation_code, op.invoke_id, op.calling_gt, op.called_gt, op.called_ssn
        ));
        match self.plan {
            Plan::Reply => {
                dialogue.reply(op.operation_code, Some(vec![0x30, 0x00]));
                dialogue.end();
            }
            Plan::Fail => {
                dialogue.error(op.invoke_id, 27);
                dialogue.end();
            }
            Plan::Hold => {
                dialogue.invoke(7, Some(vec![0x30, 0x02, 0x05, 0x00]));
                dialogue.send();
            }
            Plan::Silent => {}
            Plan::Refuse => dialogue.abort(AbortBy::User),
        }
    }

    fn on_start(&self, dialogue: &mut Dialogue) {
        dialogue.invoke(44, Some(vec![0x30, 0x00]));
        dialogue.send();
    }

    fn on_continue(&self, dialogue: &mut Dialogue, peer: &PeerTurn) {
        self.seen.lock().unwrap().push(format!("turn {} {}", peer.is_end, peer.components.len()));
        self.turns.lock().unwrap().push(peer.clone());
        if !peer.is_end {
            dialogue.reply(2, Some(vec![0x30, 0x00]));
            dialogue.end();
        }
    }
}

fn timers() -> Tcap {
    Tcap { invoke_timer_ms: 5_000, dialogue_timer_ms: 30_000, max_dialogues: 2 }
}

fn engine(op: i64, h: Scripted) -> DialogueEngine<Scripted> {
    let mut e = DialogueEngine::new(timers());
    e.register(6, op, h);
    e
}

fn sri_sm(context: bool) -> Msu {
    let ac = if context {
        Some(siphon_sigtran::python::MapAcHandle { arcs: CONTEXT.to_vec() })
    } else {
        None
    };
    let payload = Node::<Scripted>::assemble_begin(
        "sri-sm",
        "15550100",
        6,
        "15550170",
        Some(vec![0x30, 0x00]),
        ac,
    )
    .unwrap();
    Msu { opc: 2000, dpc: 1000, si: SI_SCCP, ni: 2, mp: 0, sls: 5, payload }
}

fn update_location() -> Msu {
    let payload =
        Node::<Scripted>::assemble_begin("update-location", "15550100", 6, "15550170", None, None)
            .unwrap();
    Msu { opc: 2000, dpc: 1000, si: SI_SCCP, ni: 0, mp: 0, sls: 0, payload }
}

fn peer(payload: Vec<u8>) -> Msu {
    Msu { opc: 2000, dpc: 1000, si: SI_SCCP, ni: 0, mp: 0, sls: 0, payload }
}

fn read(msu: &Msu) -> PyDecoded {
    Node::<Scripted>::decode(&msu.payload).unwrap()
}

#[test]
fn a_reply_closes_in_one_end() {
    let h = Scripted::new(Plan::Reply);
    let mut e = engine(45, h.clone());
    let mut m = Metrics::new();
    let out = e.deliver(&mut m, &sri_sm(true), "hlr-a", 0);
    assert_eq!(out.len(), 1);
    // The label is turned round, the network indicator and link selection kept.
    assert_eq!((out[0].opc, out[0].dpc, out[0].si, out[0].ni, out[0].sls), (1000, 2000, 3, 2, 5));
    let d = read(&out[0]);
    assert_eq!(d.kind, "end");
    assert_eq!(d.dtid, vec![0x11, 0x22, 0x33, 0x44]);
    assert_eq!(d.result, Some((45, Some(vec![0x30, 0x00]))));
    assert_eq!(d.app_context, Some(CONTEXT.to_vec()));
    assert_eq!(e.open_dialogues(), 0);
    assert_eq!(active_dialogues(&m), 0);
    assert_eq!(
        h.log(),
        vec![r#"begin 45 1 Some("15550170") Some("15550100") 6"#.to_string()]
    );
    // The parties are swapped.
    let back = Unitdata::decode(&out[0].payload).unwrap();
    assert_eq!(back.called_party.global_title.digits(), Some("15550170"));
    assert_eq!(back.calling_party.global_title.digits(), Some("15550100"));
}

#[test]
fn the_answer_reads_back_with_the_published_codec() {
    let mut e = engine(45, Scripted::new(Plan::Reply));
    let mut m = Metrics::new();
    let out = e.deliver(&mut m, &sri_sm(true), "hlr-a", 0);
    let udt = match sccp::SccpMessage::decode(&out[0].payload).unwrap() {
        sccp::SccpMessage::Udt(u) => u,
        other => panic!("not a UDT: {other:?}"),
    };
    match tcap::decode(&udt.data).unwrap() {
        tcap::TcapMessage::End(end) => {
            assert_eq!(end.dtid.to_vec(), vec![0x11, 0x22, 0x33, 0x44]);
            let comps = end.components.unwrap();
            assert_eq!(comps.len(), 1);
            match &comps[0] {
                tcap::Component::ReturnResultLast(rr) => {
                    assert_eq!(rr.invoke_id, 1);
                    let v = rr.result.as_ref().unwrap();
                    assert_eq!(v.operation_code, tcap::OperationCode::Local(45));
                }
                other => panic!("not a result: {other:?}"),
            }
            match end.dialogue_portion.unwrap().dialogue_pdu() {
                Some(tcap::dialogue::DialoguePdu::Aare { application_context_name, .. }) => {
                    assert_eq!(application_context_name.as_ref().to_vec(), CONTEXT.to_vec());
                }
                other => panic!("not a response: {other:?}"),
            }
        }
        other => panic!("not an End: {other:?}"),
    }
}

#[test]
fn an_error_is_answered_under_its_invoke_id() {
    let mut e = engine(45, Scripted::new(Plan::Fail));
    let mut m = Metrics::new();
    let out = e.deliver(&mut m, &sri_sm(false), "hlr-a", 0);
    let d = read(&out[0]);
    assert_eq!(d.kind, "end");
    assert_eq!(d.error, Some((1, 27)));
    assert_eq!(d.app_context, None);
}

#[test]
fn a_held_dialogue_takes_a_second_leg() {
    let h = Scripted::new(Plan::Hold);
    let mut e = engine(2, h.clone());
    let mut m = Metrics::new();
    let first = e.deliver(&mut m, &update_location(), "vlr", 100);
    assert_eq!(first.len(), 1);
    let d = read(&first[0]);
    assert_eq!(d.kind, "continue");
    assert_eq!(d.invokes, vec![(7, Some(vec![0x30, 0x02, 0x05, 0x00]))]);
    assert_eq!(e.open_dialogues(), 1);
    assert_eq!(active_dialogues(&m), 1);
    // The peer answers our invoke; the handler then answers the opening invoke.
    let answer = Node::<Scripted>::assemble_continue(
        d.otid.clone(),
        &StagedComponent::Result(StagedResult { op: 7, param: None }),
        1,
        None,
    )
    .unwrap();
    let second = e.deliver(&mut m, &peer(answer), "vlr", 200);
    assert_eq!(second.len(), 1);
    let d2 = read(&second[0]);
    assert_eq!(d2.kind, "end");
    assert_eq!(d2.result, Some((2, Some(vec![0x30, 0x00]))));
    assert_eq!(e.open_dialogues(), 0);
    assert_eq!(active_dialogues(&m), 0);
    let turns = h.turns.lock().unwrap();
    assert_eq!(
        turns[0].components,
        vec![PeerComponent::Result { invoke_id: 1, operation_code: Some(7), parameter: None }]
    );
}

#[test]
fn a_peer_end_closes_the_dialogue() {
    let h = Scripted::new(Plan::Hold);
    let mut e = engine(2, h.clone());
    let mut m = Metrics::new();
    let d = read(&e.deliver(&mut m, &update_location(), "vlr", 0)[0]);
    let end = Node::<Scripted>::assemble_end(d.otid, None, 1).unwrap();
    let out = e.deliver(&mut m, &peer(end), "vlr", 1);
    assert!(out.is_empty());
    assert_eq!(e.open_dialogues(), 0);
    assert_eq!(active_dialogues(&m), 0);
    assert_eq!(h.log().last().unwrap(), "turn true 0");
}

#[test]
fn a_silent_handler_draws_an_abort() {
    let mut e = engine(45, Scripted::new(Plan::Silent));
    let mut m = Metrics::new();
    let out = e.deliver(&mut m, &sri_sm(true), "hlr-a", 0);
    assert_eq!(out.len(), 1);
    assert_eq!(read(&out[0]).kind, "abort");
    assert_eq!(e.open_dialogues(), 0);
    assert_eq!(aborts(&m, AbortSource::Local), 1);
}

#[test]
fn a_user_abort_is_sent_and_closes() {
    let mut e = engine(45, Scripted::new(Plan::Refuse));
    let mut m = Metrics::new();
    let out = e.deliver(&mut m, &sri_sm(true), "hlr-a", 0);
    let d = read(&out[0]);
    assert_eq!((d.kind, d.dtid), ("abort", vec![0x11, 0x22, 0x33, 0x44]));
    assert_eq!(e.open_dialogues(), 0);
}

#[test]
fn an_operation_without_handler_is_aborted() {
    let mut e = engine(46, Scripted::new(Plan::Reply));
    let mut m = Metrics::new();
    let out = e.deliver(&mut m, &sri_sm(true), "hlr-a", 0);
    assert_eq!(out.len(), 1);
    let d = read(&out[0]);
    assert_eq!((d.kind, d.dtid), ("abort", vec![0x11, 0x22, 0x33, 0x44]));
    assert_eq!(aborts(&m, AbortSource::Local), 1);
}

#[test]
fn the_ceiling_refuses_further_dialogues() {
    let mut e = engine(2, Scripted::new(Plan::Hold));
    let mut m = Metrics::new();
    for _ in 0..2 {
        assert_eq!(read(&e.deliver(&mut m, &update_location(), "vlr", 0)[0]).kind, "continue");
    }
    assert_eq!(e.open_dialogues(), 2);
    assert_eq!(read(&e.deliver(&mut m, &update_location(), "vlr", 0)[0]).kind, "abort");
    assert_eq!(e.open_dialogues(), 2);
}

#[test]
fn an_explicit_handler_wins_over_a_catch_all() {
    for explicit_first in [true, false] {
        let (all, own) = (Scripted::new(Plan::Fail), Scripted::new(Plan::Reply));
        let mut e = DialogueEngine::new(timers());
        if explicit_first {
            e.register(6, 45, own.clone());
            e.register_fallback(6, 45, all.clone());
        } else {
            e.register_fallback(6, 45, all.clone());
            e.register(6, 45, own.clone());
        }
        let mut m = Metrics::new();
        e.deliver(&mut m, &sri_sm(false), "a", 0);
        assert_eq!((own.log().len(), all.log().len()), (1, 0));
    }
}

#[test]
fn what_is_no_transaction_is_ignored() {
    let mut e = engine(45, Scripted::new(Plan::Reply));
    let mut m = Metrics::new();
    let mut isup = sri_sm(true);
    isup.si = SI_ISUP;
    assert!(e.deliver(&mut m, &isup, "a", 0).is_empty());
    assert!(e.deliver(&mut m, &peer(vec![1, 2, 3]), "a", 0).is_empty());
    let garbage = Unitdata::udt(
        gt_address("15550100", Some(6)),
        gt_address("15550170", Some(6)),
        vec![0xFF, 0xFF],
    )
    .encode()
    .unwrap();
    assert!(e.deliver(&mut m, &peer(garbage), "a", 0).is_empty());
    let unknown = Node::<Scripted>::assemble_end(vec![9, 9, 9, 9], None, 1).unwrap();
    assert!(e.deliver(&mut m, &peer(unknown), "a", 0).is_empty());
    assert_eq!(aborts(&m, AbortSource::Local), 0);
}

#[test]
fn an_unanswered_invoke_is_aged_out() {
    let mut e = engine(2, Scripted::new(Plan::Hold));
    let mut m = Metrics::new();
    let d = read(&e.deliver(&mut m, &update_location(), "vlr", 1_000)[0]);
    assert!(e.sweep(&mut m, 5_999).is_empty());
    assert_eq!(e.open_dialogues(), 1);
    let swept = e.sweep(&mut m, 6_000);
    assert_eq!(swept.len(), 1);
    assert_eq!(swept[0].0, "vlr");
    let abort = read(&swept[0].1);
    assert_eq!((abort.kind, abort.dtid), ("abort", vec![0x11, 0x22, 0x33, 0x44]));
    assert_eq!(d.dtid, vec![0x11, 0x22, 0x33, 0x44]);
    assert_eq!(e.open_dialogues(), 0);
    assert_eq!(active_dialogues(&m), 0);
    assert_eq!(invoke_timeouts(&m, 7), 1);
}

/// Asks once, then answers whatever the peer asks and keeps the dialogue open.
struct Patient;

impl TerminationHandler for Patient {
    fn on_begin(&self, dialogue: &mut Dialogue, _op: &IncomingOp) {
        dialogue.invoke(7, None);
        dialogue.send();
    }

    fn on_continue(&self, dialogue: &mut Dialogue, _peer: &PeerTurn) {
        dialogue.send();
    }
}

#[test]
fn an_invoke_stays_outstanding_until_it_is_answered() {
    let follow_up = |d: &PyDecoded, c: StagedComponent| {
        peer(Node::<Scripted>::assemble_continue(d.otid.clone(), &c, 1, None).unwrap())
    };
    let asks = || StagedComponent::Invoke(StagedInvoke { op: 12, arg: None });
    let answers = || StagedComponent::Result(StagedResult { op: 7, param: None });

    // A leg that does not answer leaves the invoke waiting since it was asked.
    let mut e: DialogueEngine<Patient> = DialogueEngine::new(timers());
    e.register(6, 2, Patient);
    let mut m = Metrics::new();
    let d = read(&e.deliver(&mut m, &update_location(), "vlr", 1_000)[0]);
    assert_eq!(e.deliver(&mut m, &follow_up(&d, asks()), "vlr", 4_000).len(), 1);
    assert!(e.sweep(&mut m, 5_999).is_empty());
    assert_eq!(e.sweep(&mut m, 6_000).len(), 1);
    assert_eq!((invoke_timeouts(&m, 7), dialogue_timeouts(&m)), (1, 0));

    // An answer ends the wait: what is left is the idle timer.
    let mut m = Metrics::new();
    let d = read(&e.deliver(&mut m, &update_location(), "vlr", 1_000)[0]);
    assert_eq!(e.deliver(&mut m, &follow_up(&d, answers()), "vlr", 4_000).len(), 1);
    assert!(e.sweep(&mut m, 33_999).is_empty());
    assert_eq!(e.sweep(&mut m, 34_000).len(), 1);
    assert_eq!((invoke_timeouts(&m, 7), dialogue_timeouts(&m)), (0, 1));
}

/// Opens and says nothing more: an idle dialogue with no invoke outstanding.
struct Idle;

impl TerminationHandler for Idle {
    fn on_begin(&self, dialogue: &mut Dialogue, _op: &IncomingOp) {
        dialogue.send();
    }
}

#[test]
fn an_idle_dialogue_is_aged_out_by_its_own_timer() {
    let mut e: DialogueEngine<Idle> = DialogueEngine::new(timers());
    e.register(6, 2, Idle);
    let mut m = Metrics::new();
    let out = e.deliver(&mut m, &update_location(), "vlr", 0);
    assert_eq!(read(&out[0]).kind, "continue");
    assert!(e.sweep(&mut m, 29_999).is_empty());
    let swept = e.sweep(&mut m, 30_000);
    assert_eq!(swept.len(), 1);
    assert_eq!(dialogue_timeouts(&m), 1);
    assert_eq!(e.open_dialogues(), 0);
}

fn outgoing() -> OutgoingBegin {
    OutgoingBegin {
        application_context: CONTEXT.to_vec(),
        called: gt_address("15550170", Some(8)),
        calling: gt_address("15550100", Some(8)),
        opc: 1000,
        dpc: 2002,
        ni: 2,
        sls: 9,
        ingress_assoc: String::new(),
    }
}

#[test]
fn an_originated_dialogue_is_one_exchange() {
    let mut e: DialogueEngine<OriginationHandler> = DialogueEngine::new(timers());
    let mut m = Metrics::new();
    let h = OriginationHandler { op: 45, arg: Some(vec![0x30, 0x00]) };
    let (tid, out) = e.begin(&mut m, outgoing(), h, 0);
    assert_eq!(tid.len(), 4);
    assert_eq!(out.len(), 1);
    assert_eq!((out[0].opc, out[0].dpc, out[0].ni, out[0].sls), (1000, 2002, 2, 9));
    let d = read(&out[0]);
    assert_eq!(d.kind, "begin");
    assert_eq!(d.otid, tid);
    assert_eq!(d.app_context, Some(CONTEXT.to_vec()));
    assert_eq!(d.invokes, vec![(45, Some(vec![0x30, 0x00]))]);
    assert_eq!(e.open_dialogues(), 1);
    // The peer leaves the dialogue open: we close it with an End to its own id.
    let answer = Node::<OriginationHandler>::assemble_continue(
        tid,
        &StagedComponent::Result(StagedResult { op: 45, param: Some(vec![0x30, 0x00]) }),
        1,
        Some(vec![0xAA, 0xBB, 0xCC, 0xDD]),
    )
    .unwrap();
    let closing = e.deliver(&mut m, &peer(answer), "any", 1);
    let d = read(&closing[0]);
    assert_eq!((d.kind, d.dtid), ("end", vec![0xAA, 0xBB, 0xCC, 0xDD]));
    assert_eq!(e.open_dialogues(), 0);
}

#[test]
fn an_originated_dialogue_can_go_on() {
    let h = Scripted::new(Plan::Reply);
    let mut e: DialogueEngine<Scripted> = DialogueEngine::new(timers());
    let mut m = Metrics::new();
    let (tid, out) = e.begin(&mut m, outgoing(), h.clone(), 0);
    assert_eq!(read(&out[0]).invokes, vec![(44, Some(vec![0x30, 0x00]))]);
    let invoke = Node::<Scripted>::assemble_continue(
        tid,
        &StagedComponent::Invoke(StagedInvoke { op: 46, arg: None }),
        3,
        None,
    )
    .unwrap();
    let out = e.deliver(&mut m, &peer(invoke), "any", 1);
    assert_eq!(read(&out[0]).kind, "end");
    assert_eq!(
        h.turns.lock().unwrap()[0].components,
        vec![PeerComponent::Invoke { invoke_id: 3, operation_code: 46, argument: None }]
    );
}

#[test]
fn transaction_ids_are_marked_and_distinct() {
    let mut e: DialogueEngine<Scripted> =
        DialogueEngine::new(Tcap { max_dialogues: 100, ..timers() });
    let mut m = Metrics::new();
    let mut seen: Vec<Vec<u8>> = vec![];
    for _ in 0..20 {
        let (tid, _) = e.begin(&mut m, outgoing(), Scripted::new(Plan::Reply), 0);
        assert_eq!(tid[0] & 0x80, 0x80);
        assert!(!seen.contains(&tid));
        seen.push(tid);
    }
    assert_eq!(e.open_dialogues(), 20);
}

#[test]
fn a_follow_up_reenters_its_own_handler() {
    let (first, second) = (Scripted::new(Plan::Hold), Scripted::new(Plan::Hold));
    let mut e = DialogueEngine::new(timers());
    e.register(6, 45, first.clone());
    e.register(6, 2, second.clone());
    let mut m = Metrics::new();
    let one = read(&e.deliver(&mut m, &sri_sm(false), "a", 0)[0]);
    let two = read(&e.deliver(&mut m, &update_location(), "b", 0)[0]);
    assert_eq!((first.log().len(), second.log().len()), (1, 1));
    assert!(first.log()[0].starts_with("begin 45 "));
    assert!(second.log()[0].starts_with("begin 2 "));
    // The second dialogue goes on first, then the first one.
    for (d, assoc) in [(&two, "b"), (&one, "a")] {
        let answer = Node::<Scripted>::assemble_continue(
            d.otid.clone(),
            &StagedComponent::Result(StagedResult { op: 7, param: None }),
            1,
            None,
        )
        .unwrap();
        assert_eq!(e.deliver(&mut m, &peer(answer), assoc, 1).len(), 1);
        let late = if assoc == "a" { 2 } else { 1 };
        assert_eq!((first.log().len(), second.log().len()), (late, 2));
    }
    assert_eq!(first.log()[1], "turn false 1");
    assert_eq!(second.log()[1], "turn false 1");
    assert_eq!(e.open_dialogues(), 0);
}

#[test]
fn an_originated_dialogue_keeps_its_own_handler() {
    let (registered, own) = (Scripted::new(Plan::Hold), Scripted::new(Plan::Reply));
    let mut e = DialogueEngine::new(timers());
    e.register(6, 45, registered.clone());
    e.register_fallback(6, 44, registered.clone());
    let mut m = Metrics::new();
    let (tid, _) = e.begin(&mut m, outgoing(), own.clone(), 0);
    let held = read(&e.deliver(&mut m, &sri_sm(false), "a", 0)[0]);
    for id in [tid, held.otid] {
        let answer = Node::<Scripted>::assemble_continue(
            id,
            &StagedComponent::Result(StagedResult { op: 44, param: None }),
            1,
            None,
        )
        .unwrap();
        e.deliver(&mut m, &peer(answer), "any", 1);
    }
    assert_eq!(own.log(), vec!["turn false 1"]);
    assert_eq!(registered.log().len(), 2);
    assert_eq!(registered.log()[1], "turn false 1");
}

/// Asks about an update of location, and waits in silence otherwise.
struct Mixed;

impl TerminationHandler for Mixed {
    fn on_begin(&self, dialogue: &mut Dialogue, op: &IncomingOp) {
        if op.operation_code == 2 {
            dialogue.invoke(7, None);
        }
        dialogue.send();
    }
}

#[test]
fn a_sweep_accounts_for_each_dialogue_once() {
    let mut e: DialogueEngine<Mixed> =
        DialogueEngine::new(Tcap { max_dialogues: 10, ..timers() });
    e.register(6, 2, Mixed);
    e.register(6, 45, Mixed);
    let mut m = Metrics::new();
    e.deliver(&mut m, &update_location(), "late-a", 0);
    e.deliver(&mut m, &update_location(), "late-b", 100);
    e.deliver(&mut m, &sri_sm(false), "idle", 0);
    e.deliver(&mut m, &sri_sm(false), "fresh", 29_000);
    e.deliver(&mut m, &update_location(), "asked", 29_000);
    assert_eq!(e.open_dialogues(), 5);
    let swept = e.sweep(&mut m, 30_000);
    let mut on: Vec<&str> = swept.iter().map(|s| s.0.as_str()).collect();
    on.sort();
    assert_eq!(on, vec!["idle", "late-a", "late-b"]);
    assert!(swept.iter().all(|s| read(&s.1).kind == "abort"));
    assert_eq!(e.open_dialogues(), 2);
    assert_eq!(active_dialogues(&m), 2);
    assert_eq!((invoke_timeouts(&m, 7), dialogue_timeouts(&m)), (2, 1));
    assert_eq!(aborts(&m, AbortSource::Local), 3);
    assert_eq!((aborts(&m, AbortSource::User), aborts(&m, AbortSource::Provider)), (0, 0));
    assert!(e.sweep(&mut m, 30_000).is_empty());
    assert_eq!((e.open_dialogues(), aborts(&m, AbortSource::Local)), (2, 3));
}
