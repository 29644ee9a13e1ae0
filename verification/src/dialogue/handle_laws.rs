//! Laws of a dialogue's handle: what the steps of a handler put on the wire.
use crate::dialogue::handle::{
    carrier, reversed, wrapped, AddressingModel, DialogueModel, Role,
};
use crate::sccp::message::{sccp_encoded, MessageModel, SccpForm};
use crate::transaction::{AbortBy, OutgoingModel, StagedModel};
use crate::transport::msu::MsuModel;
use vstd::prelude::*;

verus! {

/// One step that a handler takes on its dialogue.
pub enum Step {
    /// It stages an Invoke.
    Invoke { operation: i64, argument: Option<Seq<u8>> },
    /// It stages a result for the invoke that opened the dialogue.
    Reply { operation: i64, result: Option<Seq<u8>> },
    /// It stages a result for some invoke.
    ReplyTo { invoke_id: i64, operation: i64, result: Option<Seq<u8>> },
    /// It stages an error for some invoke.
    Error { invoke_id: i64, error: i64 },
    /// It flushes what it staged, and goes on or ends the dialogue.
    Flush { closing: bool },
    /// It aborts the dialogue.
    Abort { by: AbortBy },
}

/// The dialogue after a step.
pub open spec fn after_step(d: DialogueModel, s: Step) -> DialogueModel {
    match s {
        Step::Invoke { operation, argument } => d.invoking(operation, argument),
        Step::Reply { operation, result } => d.replying_to(d.reply_invoke_id, operation, result),
        Step::ReplyTo { invoke_id, operation, result } => d.replying_to(
            invoke_id,
            operation,
            result,
        ),
        Step::Error { invoke_id, error } => d.failing(invoke_id, error),
        Step::Flush { closing } => d.flushed(closing),
        Step::Abort { by } => d.aborted(by),
    }
}

/// The dialogue after some steps.
pub open spec fn after_steps(d: DialogueModel, steps: Seq<Step>) -> DialogueModel
    decreases steps.len(),
{
    if steps.len() == 0 {
        d
    } else {
        after_step(after_steps(d, steps.drop_last()), steps.last())
    }
}

/// How many of the steps are invokes.
pub open spec fn invokes(steps: Seq<Step>) -> nat
    decreases steps.len(),
{
    if steps.len() == 0 {
        0
    } else {
        invokes(steps.drop_last()) + (if steps.last() is Invoke {
            1nat
        } else {
            0
        })
    }
}

/// Some step flushes.
pub open spec fn any_flush(steps: Seq<Step>) -> bool {
    exists|i: int| 0 <= i < steps.len() && (#[trigger] steps[i]) is Flush
}

/// Some step ends or aborts the dialogue.
pub open spec fn any_close(steps: Seq<Step>) -> bool {
    exists|i: int|
        0 <= i < steps.len() && ((#[trigger] steps[i]) is Abort || (steps[i] is Flush
            && steps[i]->closing))
}

/// A dialogue at its start, opened by a peer or by us.
pub open spec fn is_fresh(d: DialogueModel) -> bool {
    ||| d == DialogueModel::fresh_responder(
        d.our_tid,
        d.peer_tid,
        d.ac,
        d.reply_invoke_id,
        d.addressing,
    )
    ||| d == DialogueModel::fresh_initiator(d.our_tid, d.ac, d.addressing)
}

proof fn invokes_up_to(steps: Seq<Step>, j: int, k: int)
    requires
        0 <= j < k <= steps.len(),
        steps[j] is Invoke,
    ensures
        invokes(steps.take(j)) < invokes(steps.take(k)) <= k,
    decreases k,
{
    let t = steps.take(k);
    assert(t.drop_last() =~= steps.take(k - 1));
    if j < k - 1 {
        invokes_up_to(steps, j, k - 1);
    } else {
        invokes_bounded(steps.take(j));
    }
}

proof fn invokes_bounded(steps: Seq<Step>)
    ensures
        invokes(steps) <= steps.len(),
    decreases steps.len(),
{
    if steps.len() > 0 {
        invokes_bounded(steps.drop_last());
    }
}

proof fn next_id_counts(d: DialogueModel, steps: Seq<Step>)
    requires
        is_fresh(d),
        steps.len() < i64::MAX,
    ensures
        after_steps(d, steps).next_invoke_id == 1 + invokes(steps),
    decreases steps.len(),
{
    invokes_bounded(steps);
    if steps.len() > 0 {
        next_id_counts(d, steps.drop_last());
        invokes_bounded(steps.drop_last());
    }
}

/// The invokes of a dialogue are numbered 1, 2, 3 and on in the order in which they are
/// staged, whatever else the handler does between them: the one at step `k` has the
/// number of invokes before it plus one, with its own operation and argument, and no two
/// of a dialogue share a number.
pub proof fn law_invokes_are_numbered(d: DialogueModel, steps: Seq<Step>, j: int, k: int)
    requires
        is_fresh(d),
        steps.len() < i64::MAX,
        0 <= k < steps.len(),
        steps[k] is Invoke,
    ensures
        after_steps(d, steps.take(k)).next_invoke_id == 1 + invokes(steps.take(k)),
        after_steps(d, steps.take(k + 1)).pending == after_steps(d, steps.take(k)).pending.push(
            StagedModel::Invoke {
                invoke_id: (1 + invokes(steps.take(k))) as i64,
                operation: steps[k]->Invoke_operation,
                parameter: steps[k]->argument,
            },
        ),
        0 <= j < k && steps[j] is Invoke ==> after_steps(d, steps.take(j)).next_invoke_id
            < after_steps(d, steps.take(k)).next_invoke_id,
{
    next_id_counts(d, steps.take(k));
    invokes_bounded(steps.take(k));
    assert(steps.take(k + 1).drop_last() =~= steps.take(k));
    assert(steps.take(k + 1).last() == steps[k]);
    if 0 <= j < k && steps[j] is Invoke {
        next_id_counts(d, steps.take(j));
        invokes_up_to(steps, j, k);
    }
}

/// What the steps ask to be sent, in order: each invoke under its number, each reply to
/// the invoke that it answers, each error.
pub open spec fn asked(d: DialogueModel, steps: Seq<Step>) -> Seq<StagedModel>
    decreases steps.len(),
{
    if steps.len() == 0 {
        Seq::empty()
    } else {
        let before = asked(d, steps.drop_last());
        match steps.last() {
            Step::Invoke { operation, argument } => before.push(
                StagedModel::Invoke {
                    invoke_id: (1 + invokes(steps.drop_last())) as i64,
                    operation,
                    parameter: argument,
                },
            ),
            Step::Reply { operation, result } => before.push(
                StagedModel::ResultLast {
                    invoke_id: d.reply_invoke_id,
                    operation,
                    parameter: result,
                },
            ),
            Step::ReplyTo { invoke_id, operation, result } => before.push(
                StagedModel::ResultLast { invoke_id, operation, parameter: result },
            ),
            Step::Error { invoke_id, error } => before.push(
                StagedModel::Error { invoke_id, error },
            ),
            Step::Flush { closing } => before,
            Step::Abort { by } => before,
        }
    }
}

/// The components of some messages, one after the other.
pub open spec fn carried(out: Seq<OutgoingModel>) -> Seq<StagedModel>
    decreases out.len(),
{
    if out.len() == 0 {
        Seq::empty()
    } else {
        carried(out.drop_last()) + match out.last() {
            OutgoingModel::Begin { otid, context, components } => components,
            OutgoingModel::Continue { otid, dtid, context, components } => components,
            OutgoingModel::End { dtid, context, components } => components,
            OutgoingModel::Abort { dtid, by } => Seq::empty(),
        }
    }
}

/// Nothing that a handler staged is lost, repeated or moved: the components of the
/// messages sent, followed by those still staged, are what was asked, in order. An abort
/// drops what was staged, and is left out here.
pub proof fn law_components_go_in_order(d: DialogueModel, steps: Seq<Step>)
    requires
        is_fresh(d),
        steps.len() < i64::MAX,
        forall|i: int| 0 <= i < steps.len() ==> !((#[trigger] steps[i]) is Abort),
    ensures
        carried(after_steps(d, steps).out) + after_steps(d, steps).pending == asked(d, steps),
        after_steps(d, steps).reply_invoke_id == d.reply_invoke_id,
    decreases steps.len(),
{
    let now = after_steps(d, steps);
    if steps.len() == 0 {
        assert(carried(now.out) + now.pending =~= asked(d, steps));
    } else {
        let less = steps.drop_last();
        assert forall|i: int| 0 <= i < less.len() implies !((#[trigger] less[i]) is Abort) by {
            assert(!(steps[i] is Abort));
        }
        law_components_go_in_order(d, less);
        next_id_counts(d, less);
        invokes_bounded(less);
        let before = after_steps(d, less);
        assert(!(steps[steps.len() - 1] is Abort));
        if steps.last() is Flush {
            assert(now.out.drop_last() =~= before.out);
            assert(carried(now.out) =~= carried(before.out) + before.pending);
        }
        assert(carried(now.out) + now.pending =~= asked(d, steps));
    }
}

proof fn steps_keep(d: DialogueModel, steps: Seq<Step>)
    requires
        is_fresh(d),
    ensures
        after_steps(d, steps).role == d.role,
        after_steps(d, steps).our_tid == d.our_tid,
        after_steps(d, steps).peer_tid == d.peer_tid,
        after_steps(d, steps).ac == d.ac,
        after_steps(d, steps).addressing == d.addressing,
        after_steps(d, steps).first_flush_done == any_flush(steps),
        after_steps(d, steps).aare_pending == (d.role == Role::Responder && !any_flush(steps)),
        after_steps(d, steps).closed == any_close(steps),
    decreases steps.len(),
{
    if steps.len() > 0 {
        let n = steps.len() - 1;
        let less = steps.drop_last();
        steps_keep(d, less);
        if any_flush(less) {
            let i = choose|i: int| 0 <= i < less.len() && (#[trigger] less[i]) is Flush;
            assert(steps[i] is Flush);
        }
        if any_flush(steps) && !(steps[n] is Flush) {
            let i = choose|i: int| 0 <= i < steps.len() && (#[trigger] steps[i]) is Flush;
            assert(less[i] is Flush);
        }
        if any_close(less) {
            let i = choose|i: int|
                0 <= i < less.len() && ((#[trigger] less[i]) is Abort || (less[i] is Flush
                    && less[i]->closing));
            assert(steps[i] is Abort || (steps[i] is Flush && steps[i]->closing));
        }
        if any_close(steps) && !(steps[n] is Abort || (steps[n] is Flush && steps[n]->closing)) {
            let i = choose|i: int|
                0 <= i < steps.len() && ((#[trigger] steps[i]) is Abort || (steps[i] is Flush
                    && steps[i]->closing));
            assert(less[i] is Abort || (less[i] is Flush && less[i]->closing));
        }
        assert(steps[n] == steps.last());
    }
}

/// A flush puts one message out, with everything staged since the last one. The first
/// of a dialogue of ours is a Begin under our id with our context. Any other is an End
/// to the peer's transaction if it ends the dialogue, else a Continue between the two;
/// it carries the context only as the first answer to a peer's dialogue.
pub proof fn law_each_flush_sends_one_message(d: DialogueModel, steps: Seq<Step>, k: int)
    requires
        is_fresh(d),
        0 <= k < steps.len(),
        steps[k] is Flush,
    ensures
        ({
            let before = after_steps(d, steps.take(k));
            let after = after_steps(d, steps.take(k + 1));
            let context = if any_flush(steps.take(k)) {
                None
            } else {
                Some(d.ac)
            };
            &&& after.pending.len() == 0
            &&& after.out.len() == before.out.len() + 1
            &&& after.out.drop_last() == before.out
            &&& d.role == Role::Initiator && !any_flush(steps.take(k)) ==> after.out.last() == (
            OutgoingModel::Begin { otid: d.our_tid, context, components: before.pending })
            &&& (d.role == Role::Responder || any_flush(steps.take(k))) && steps[k]->closing
                ==> after.out.last() == (OutgoingModel::End {
                dtid: d.peer_tid,
                context,
                components: before.pending,
            })
            &&& (d.role == Role::Responder || any_flush(steps.take(k))) && !steps[k]->closing
                ==> after.out.last() == (OutgoingModel::Continue {
                otid: d.our_tid,
                dtid: d.peer_tid,
                context,
                components: before.pending,
            })
        }),
{
    let t = steps.take(k);
    steps_keep(d, t);
    assert(steps.take(k + 1).drop_last() =~= t);
    assert(steps.take(k + 1).last() == steps[k]);
    let before = after_steps(d, t);
    let after = after_steps(d, steps.take(k + 1));
    assert(after.out.drop_last() =~= before.out);
}

/// An abort puts one message out, an Abort to the peer's transaction with its cause, and
/// drops what was staged.
pub proof fn law_abort_drops_what_was_staged(d: DialogueModel, steps: Seq<Step>, k: int)
    requires
        is_fresh(d),
        0 <= k < steps.len(),
        steps[k] is Abort,
    ensures
        ({
            let before = after_steps(d, steps.take(k));
            let after = after_steps(d, steps.take(k + 1));
            &&& after.pending.len() == 0
            &&& after.out == before.out.push(
                OutgoingModel::Abort { dtid: d.peer_tid, by: steps[k]->by },
            )
        }),
{
    steps_keep(d, steps.take(k));
    assert(steps.take(k + 1).drop_last() =~= steps.take(k));
    assert(steps.take(k + 1).last() == steps[k]);
}

/// A dialogue is closed exactly if some step ended or aborted it. No step changes its
/// transaction ids, its context or its addressing, and only flushes and aborts send.
pub proof fn law_steps_keep_the_dialogue(d: DialogueModel, steps: Seq<Step>, k: int)
    requires
        is_fresh(d),
        0 <= k < steps.len(),
    ensures
        after_steps(d, steps).closed <==> any_close(steps),
        after_steps(d, steps).our_tid == d.our_tid,
        after_steps(d, steps).peer_tid == d.peer_tid,
        after_steps(d, steps).ac == d.ac,
        after_steps(d, steps).addressing == d.addressing,
        !(steps[k] is Flush) && !(steps[k] is Abort) ==> after_steps(d, steps.take(k + 1)).out
            == after_steps(d, steps.take(k)).out,
        steps[k] is Invoke ==> after_steps(d, steps.take(k + 1)).awaiting_op == Some(
            steps[k]->Invoke_operation,
        ),
        !(steps[k] is Invoke) ==> after_steps(d, steps.take(k + 1)).awaiting_op == after_steps(
            d,
            steps.take(k),
        ).awaiting_op,
{
    steps_keep(d, steps);
    assert(steps.take(k + 1).drop_last() =~= steps.take(k));
    assert(steps.take(k + 1).last() == steps[k]);
}

/// A reply to a message goes back where it came from: to its calling party from its
/// called party, to the point code that it came from and from the one that it was for,
/// on the same link selection and network indicator.
pub proof fn law_reply_is_addressed_back(udt: MessageModel, inbound: MsuModel)
    ensures
        reversed(udt, inbound).out_called == udt.calling_party,
        reversed(udt, inbound).out_calling == udt.called_party,
        reversed(udt, inbound).dpc == inbound.opc,
        reversed(udt, inbound).opc == inbound.dpc,
        reversed(udt, inbound).ni == inbound.ni,
        reversed(udt, inbound).sls == inbound.sls,
{
}

/// A message that is sent is an SCCP unit in the short form, between the addresses and
/// the point codes of the dialogue, and holds the octets of the transaction message.
pub proof fn law_sent_unit(msg: OutgoingModel, a: AddressingModel)
    requires
        wrapped(msg, a) is Some,
    ensures
        wrapped(msg, a)->Some_0.opc == a.opc,
        wrapped(msg, a)->Some_0.dpc == a.dpc,
        wrapped(msg, a)->Some_0.ni == a.ni,
        wrapped(msg, a)->Some_0.sls == a.sls,
        wrapped(msg, a)->Some_0.si == 3,
        wrapped(msg, a)->Some_0.mp == 0,
        exists|m: MessageModel|
            #![trigger sccp_encoded(m)]
            sccp_encoded(m) == Ok::<Seq<u8>, Seq<char>>(wrapped(msg, a)->Some_0.payload) && m.form
                == SccpForm::Short && m.called_party == a.out_called && m.calling_party
                == a.out_calling && crate::transaction::transaction_octets(msg) == Ok::<
                Seq<u8>,
                crate::transaction::UnwrittenModel,
            >(m.data),
{
    let data = crate::transaction::transaction_octets(msg)->Ok_0;
    let m = carrier(data, a);
    assert(sccp_encoded(m) == Ok::<Seq<u8>, Seq<char>>(wrapped(msg, a)->Some_0.payload));
}

} // verus!
