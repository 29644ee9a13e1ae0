//! What holds of the dialogue engine as a whole.
use crate::config::Tcap;
use crate::dialogue::engine::{
    aborted_by_peer, aborts_of, aged, all_aborts, all_aged, counted_up, expired_among, followed_up,
    id_number, id_octets, idle_expired, invoke_expired, is_expired, kept, kept_in, lemma_expired,
    marked, names_open, resumed, stays_open, survivors, turn_finished, Ageing, DialogueEngine,
    HandledBy, RecordModel, Records,
};
use crate::dialogue::handle::{abort_units, wrapped, AddressingModel, DialogueModel};
use crate::metrics::{abort_source_slot, count_at, AbortSource, Metrics};
use crate::transaction::{AbortBy, OutgoingModel};
use crate::transport::msu::MsuModel;
use vstd::prelude::*;

verus! {

/// The counter after `k` more allocations.
pub open spec fn counted_on(c: u32, k: nat) -> u32
    decreases k,
{
    if k == 0 {
        c
    } else {
        counted_up(counted_on(c, (k - 1) as nat))
    }
}

proof fn counted_on_is_a_sum(c: u32, k: nat)
    ensures
        counted_on(c, k) as int == (c + k) % 0x1_0000_0000,
    decreases k,
{
    if k > 0 {
        counted_on_is_a_sum(c, (k - 1) as nat);
        let before = (c + k - 1) % 0x1_0000_0000;
        vstd::arithmetic::div_mod::lemma_add_mod_noop(c + k - 1, 1, 0x1_0000_0000);
    }
}

/// Every id of ours has its highest bit set, is found again from its octets, and
/// so starts with an octet of at least 0x80: no short id of a peer is taken for it.
pub proof fn law_ids_are_marked(c: u32)
    ensures
        marked(c) >= 0x8000_0000,
        id_octets(marked(c)).len() == 4,
        id_octets(marked(c))[0] >= 0x80,
        id_number(id_octets(marked(c))) == Some(marked(c)),
{
    crate::dialogue::engine::law_id_round_trip(marked(c));
}

/// Fewer than 2^31 allocations apart, two ids differ.
pub proof fn law_ids_do_not_repeat(c: u32, k: nat)
    requires
        0 < k < 0x8000_0000,
    ensures
        marked(counted_on(c, k)) != marked(c),
{
    counted_on_is_a_sum(c, k);
    let n = counted_on(c, k) as int;
    if c + k < 0x1_0000_0000 {
        vstd::arithmetic::div_mod::lemma_small_mod((c + k) as nat, 0x1_0000_0000);
    } else {
        vstd::arithmetic::div_mod::lemma_mod_sub_multiples_vanish(c + k, 0x1_0000_0000);
        vstd::arithmetic::div_mod::lemma_small_mod((c + k - 0x1_0000_0000) as nat, 0x1_0000_0000);
    }
}

/// A dialogue kept after a leg is taken up as it was left: same role, ids,
/// context, addressing and invoke ids. An id of the peer that was known stays, and
/// so does an invoke that the peer has not answered.
pub proof fn law_kept_dialogue_comes_back(
    d: DialogueModel,
    ingress: Seq<char>,
    now: u64,
    otid: Option<Seq<u8>>,
    answered: bool,
)
    ensures
        resumed(kept(d, ingress, now), otid, answered) == (DialogueModel {
            peer_tid: if d.peer_tid.len() == 0 && otid is Some {
                otid->Some_0
            } else {
                d.peer_tid
            },
            first_flush_done: true,
            aare_pending: false,
            closed: false,
            awaiting_op: None,
            outstanding: if answered {
                None
            } else {
                kept(d, ingress, now).awaited
            },
            pending: Seq::empty(),
            out: Seq::empty(),
            ..d
        }),
{
}

/// A follow-up re-enters the handler that answered the Begin: a dialogue left open
/// is kept with the handler that drove its opening, and no other dialogue changes
/// hands.
pub proof fn law_follow_up_reenters_handler<H>(
    after: &DialogueEngine<H>,
    before: &DialogueEngine<H>,
    m: Metrics,
    m_after: Metrics,
    i: usize,
    d: DialogueModel,
    ingress: Seq<char>,
    now: u64,
    out: Seq<MsuModel>,
)
    requires
        after.answered(before, m, m_after, i, d, ingress, now, out),
        stays_open(d),
        d.out.len() > 0,
    ensures
        names_open(after.records(), d.our_tid),
        after.handler_of(id_number(d.our_tid)->Some_0) == HandledBy::<H>::Registered(i),
        forall|k: u32|
            k != id_number(d.our_tid)->Some_0 && before.drivers().contains_key(k)
                ==> #[trigger] after.handler_of(k) == before.handler_of(k),
{
}

/// A dialogue that goes on after a follow-up goes on with the same handler, and no
/// other dialogue changes hands.
pub proof fn law_handler_stays<H>(
    after: &DialogueEngine<H>,
    before: &DialogueEngine<H>,
    m: Metrics,
    m_after: Metrics,
    d: DialogueModel,
    now: u64,
    out: Seq<MsuModel>,
)
    requires
        after.continued(before, m, m_after, d.our_tid, false, d, now, out),
        stays_open(d),
        d.out.len() > 0,
    ensures
        names_open(after.records(), d.our_tid),
        after.handler_of(id_number(d.our_tid)->Some_0) == before.handler_of(
            id_number(d.our_tid)->Some_0,
        ),
        forall|k: u32|
            before.drivers().contains_key(k) ==> #[trigger] after.handler_of(k)
                == before.handler_of(k),
{
}

/// A dialogue of ours that is left open is kept with the handler it was opened
/// with, and no other dialogue changes hands.
pub proof fn law_own_handler_is_kept<H>(
    after: &DialogueEngine<H>,
    before: &DialogueEngine<H>,
    m: Metrics,
    m_after: Metrics,
    addressing: AddressingModel,
    h: H,
    d: DialogueModel,
    ingress: Seq<char>,
    now: u64,
    out: Seq<MsuModel>,
)
    requires
        after.started(before, m, m_after, addressing, h, d, ingress, now, out),
        stays_open(d),
    ensures
        names_open(after.records(), d.our_tid),
        after.host_of(after.handler_of(id_number(d.our_tid)->Some_0)) == h,
        forall|k: u32|
            k != id_number(d.our_tid)->Some_0 && before.drivers().contains_key(k)
                ==> #[trigger] after.handler_of(k) == before.handler_of(k),
{
}

/// A dialogue left open under an id of ours is found under it again.
pub proof fn law_open_dialogue_is_found(
    rs: Records,
    d: DialogueModel,
    ingress: Seq<char>,
    now: u64,
)
    requires
        stays_open(d),
    ensures
        names_open(kept_in(rs, d, ingress, now), d.our_tid),
        kept_in(rs, d, ingress, now)[id_number(d.our_tid)->Some_0] == kept(d, ingress, now),
{
}

/// A closed dialogue is not kept.
pub proof fn law_closed_dialogue_is_gone(
    rs: Records,
    d: DialogueModel,
    ingress: Seq<char>,
    now: u64,
)
    requires
        d.closed,
    ensures
        kept_in(rs, d, ingress, now) == rs,
{
}

/// A peer is not left hanging: where the handler neither answered nor closed the
/// dialogue, the leg ends with an abort and nothing is kept.
pub proof fn law_silent_handler_aborts(
    rs: Records,
    m: Metrics,
    d: DialogueModel,
    ingress: Seq<char>,
    now: u64,
    out: Seq<MsuModel>,
    after: Records,
    m_after: Metrics,
)
    requires
        turn_finished(rs, m, d, ingress, now, out, after, m_after),
        d.out.len() == 0,
        !d.closed,
    ensures
        out == abort_units(d.addressing, d.peer_tid, AbortBy::Provider),
        after == rs,
{
}

/// A follow-up to a dialogue that is not open is ignored.
pub proof fn law_unknown_dialogue_is_ignored(
    rs: Records,
    m: Metrics,
    dtid: Seq<u8>,
    is_end: bool,
    now: u64,
    out: Seq<MsuModel>,
    after: Records,
    m_after: Metrics,
)
    requires
        followed_up(rs, m, dtid, is_end, now, out, after, m_after),
        !names_open(rs, dtid),
    ensures
        out.len() == 0,
        after == rs,
        m_after == m,
{
}

/// After a peer's End or Abort the dialogue is not open any more.
pub proof fn law_peer_closes(
    rs: Records,
    m: Metrics,
    dtid: Seq<u8>,
    now: u64,
    out: Seq<MsuModel>,
    after: Records,
    m_after: Metrics,
)
    requires
        followed_up(rs, m, dtid, true, now, out, after, m_after) || aborted_by_peer(
            rs,
            m,
            dtid,
            after,
            m_after,
        ),
    ensures
        !names_open(after, dtid),
{
}

/// What is to be aged out at some time is to be aged out at every later time.
pub proof fn law_expiry_lasts(r: RecordModel, config: Tcap, now: u64, later: u64)
    requires
        now <= later,
        is_expired(r, config, now),
    ensures
        is_expired(r, config, later),
{
    if invoke_expired(r, config, now) {
        assert(invoke_expired(r, config, later));
    } else {
        assert(idle_expired(r, config, later));
    }
}

/// A second sweep at the same time, or an earlier one, finds nothing to age out.
pub proof fn law_sweep_is_complete<H>(
    swept: &DialogueEngine<H>,
    rs: Records,
    config: Tcap,
    now: u64,
    earlier: u64,
)
    requires
        swept.wf(),
        swept.records() == survivors(rs, config, now),
        earlier <= now,
    ensures
        expired_among(swept.tids(), swept.records(), config, earlier).len() == 0,
        survivors(swept.records(), config, earlier) == swept.records(),
{
    let left = swept.records();
    assert forall|k: u32| left.contains_key(k) implies !is_expired(left[k], config, earlier) by {
        assert(!is_expired(rs[k], config, now));
        if is_expired(left[k], config, earlier) {
            law_expiry_lasts(left[k], config, earlier, now);
        }
    }
    assert(survivors(left, config, earlier) =~= left);
    swept.lemma_tids();
    let tids = swept.tids();
    assert forall|i: int| 0 <= i < tids.len() implies !is_expired(
        left[#[trigger] tids[i]],
        config,
        earlier,
    ) by {
        assert(tids.contains(tids[i]));
        assert(left.contains_key(tids[i]));
    }
    nothing_expired(tids, left, config, earlier);
}

/// A sweep removes exactly the dialogues that are to be aged out, each once: the number
/// of open dialogues falls by their number.
pub proof fn law_sweep_removes_the_expired<H>(
    engine: &DialogueEngine<H>,
    swept: &DialogueEngine<H>,
    config: Tcap,
    now: u64,
)
    requires
        engine.wf(),
        swept.wf(),
        swept.records() == survivors(engine.records(), config, now),
    ensures
        ({
            let ids = expired_among(engine.tids(), engine.records(), config, now);
            &&& ids.no_duplicates()
            &&& forall|k: u32| #[trigger]
                ids.contains(k) <==> engine.records().contains_key(k) && is_expired(
                    engine.records()[k],
                    config,
                    now,
                )
            &&& forall|k: u32|
                engine.records().contains_key(k) ==> (#[trigger] swept.records().contains_key(k)
                    <==> !ids.contains(k))
            &&& swept.size() + ids.len() == engine.size()
        }),
{
    let rs = engine.records();
    let left = swept.records();
    let ids = expired_among(engine.tids(), rs, config, now);
    engine.lemma_tids();
    swept.lemma_tids();
    lemma_expired(engine.tids(), rs, config, now);
    assert forall|i: int, j: int| 0 <= i < ids.len() && 0 <= j < ids.len() && i != j implies ids[i]
        != ids[j] by {
        if i < j {
            assert(ids[i] < ids[j]);
        } else {
            assert(ids[j] < ids[i]);
        }
    }
    assert forall|k: u32| #[trigger] ids.contains(k) <==> rs.contains_key(k) && is_expired(
        rs[k],
        config,
        now,
    ) by {
        assert(engine.tids().contains(k) == rs.contains_key(k));
    }
    let gone = ids.to_set();
    ids.unique_seq_to_set();
    assert forall|k: u32| #[trigger] rs.dom().contains(k) == left.dom().union(gone).contains(k) by {
        assert(gone.contains(k) == ids.contains(k));
    }
    assert(rs.dom() =~= left.dom().union(gone));
    assert(left.dom().disjoint(gone)) by {
        assert forall|k: u32| left.dom().contains(k) implies !gone.contains(k) by {
            assert(gone.contains(k) == ids.contains(k));
        }
    }
    vstd::set_lib::lemma_set_disjoint_lens(left.dom(), gone);
}

/// How many of the first `n` dialogues left an invoke of this operation unanswered for
/// too long.
pub open spec fn late_on(
    ids: Seq<u32>,
    rs: Records,
    config: Tcap,
    now: u64,
    op: i64,
    n: int,
) -> nat
    decreases n,
{
    if n <= 0 {
        0
    } else {
        late_on(ids, rs, config, now, op, n - 1) + (if invoke_expired(rs[ids[n - 1]], config, now)
            && rs[ids[n - 1]].awaited->Some_0.0 == op {
            1nat
        } else {
            0
        })
    }
}

/// How many of the first `n` dialogues left any invoke unanswered for too long.
pub open spec fn late(ids: Seq<u32>, rs: Records, config: Tcap, now: u64, n: int) -> nat
    decreases n,
{
    if n <= 0 {
        0
    } else {
        late(ids, rs, config, now, n - 1) + (if invoke_expired(rs[ids[n - 1]], config, now) {
            1nat
        } else {
            0
        })
    }
}

/// Ageing out counts each dialogue once as an abort from here and once as a timeout:
/// under the operation of the invoke that was not answered in time, or else, never as
/// well, as a dialogue timeout. No other abort is counted. The counters wrap around at
/// the end of their range.
pub proof fn law_sweep_counts_each_once(
    a: Ageing,
    ids: Seq<u32>,
    rs: Records,
    config: Tcap,
    now: u64,
    n: nat,
)
    requires
        n <= ids.len(),
        a.aborts.len() == 3,
    ensures
        ({
            let z = all_aged(a, ids, rs, config, now, n as int);
            let local = abort_source_slot(AbortSource::Local);
            let idle = n - late(ids, rs, config, now, n as int);
            &&& z.aborts.len() == 3
            &&& z.aborts[local] as int == (a.aborts[local] + n) % 0x1_0000_0000_0000_0000
            &&& forall|i: int| 0 <= i < 3 && i != local ==> z.aborts[i] == a.aborts[i]
            &&& idle >= 0
            &&& z.timeouts as int == (a.timeouts + idle) % 0x1_0000_0000_0000_0000
            &&& forall|op: i64| #[trigger]
                count_at(z.operations, op) as int == (count_at(a.operations, op) + late_on(
                    ids,
                    rs,
                    config,
                    now,
                    op,
                    n as int,
                )) % 0x1_0000_0000_0000_0000
            &&& a.active - n >= i64::MIN ==> z.active == a.active - n
        }),
    decreases n,
{
    if n > 0 {
        law_sweep_counts_each_once(a, ids, rs, config, now, (n - 1) as nat);
        let y = all_aged(a, ids, rs, config, now, n - 1);
        let z = all_aged(a, ids, rs, config, now, n as int);
        let r = rs[ids[n - 1]];
        assert(z == aged(y, r, config, now));
        assert forall|op: i64| #[trigger]
            count_at(z.operations, op) as int == (count_at(a.operations, op) + late_on(
                ids,
                rs,
                config,
                now,
                op,
                n as int,
            )) % 0x1_0000_0000_0000_0000 by {
            assert(count_at(y.operations, op) as int == (count_at(a.operations, op) + late_on(
                ids,
                rs,
                config,
                now,
                op,
                n - 1,
            )) % 0x1_0000_0000_0000_0000);
        }
    }
}

/// A dialogue that is aged out is aborted at most once, toward its peer, on the
/// association that it came in on, and nothing else is sent.
pub proof fn law_sweep_aborts_each_once(ids: Seq<u32>, rs: Records, n: nat)
    requires
        n <= ids.len(),
    ensures
        all_aborts(ids, rs, n as int).len() <= n,
        forall|k: int|
            0 <= k < all_aborts(ids, rs, n as int).len() ==> exists|i: int|
                0 <= i < n && (#[trigger] all_aborts(ids, rs, n as int)[k]).0 == rs[#[trigger] ids[i]].ingress_assoc
                    && wrapped(
                    OutgoingModel::Abort { dtid: rs[ids[i]].peer_tid, by: AbortBy::Provider },
                    rs[ids[i]].addressing,
                ) == Some(all_aborts(ids, rs, n as int)[k].1),
    decreases n,
{
    if n > 0 {
        law_sweep_aborts_each_once(ids, rs, (n - 1) as nat);
        let before = all_aborts(ids, rs, n - 1);
        let all = all_aborts(ids, rs, n as int);
        assert forall|k: int| 0 <= k < all.len() implies exists|i: int|
            0 <= i < n && (#[trigger] all[k]).0 == rs[#[trigger] ids[i]].ingress_assoc && wrapped(
                OutgoingModel::Abort { dtid: rs[ids[i]].peer_tid, by: AbortBy::Provider },
                rs[ids[i]].addressing,
            ) == Some(all[k].1) by {
            if k < before.len() {
                assert(all[k] == before[k]);
            } else {
                let r = rs[ids[n - 1]];
                assert(all[k] == aborts_of(r)[k - before.len()]);
            }
        }
    }
}

proof fn nothing_expired(tids: Seq<u32>, rs: Records, config: Tcap, now: u64)
    requires
        forall|i: int|
            0 <= i < tids.len() ==> !is_expired(rs[#[trigger] tids[i]], config, now),
    ensures
        expired_among(tids, rs, config, now).len() == 0,
    decreases tids.len(),
{
    if tids.len() > 0 {
        assert(tids[tids.len() - 1] == tids.last());
        assert forall|i: int| 0 <= i < tids.drop_last().len() implies !is_expired(
            rs[#[trigger] tids.drop_last()[i]],
            config,
            now,
        ) by {
            assert(tids.drop_last()[i] == tids[i]);
        }
        nothing_expired(tids.drop_last(), rs, config, now);
    }
}

} // verus!
