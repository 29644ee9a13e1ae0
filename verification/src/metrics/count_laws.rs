//! Laws of the counters: each kind has a cell and a label of its own.
use crate::metrics::{
    abort_source_label, abort_source_slot, count_at, count_gauge, dir_label, gauge, gtt_error_label,
    gtt_error_slot, gtt_result_label, gtt_result_slot, link_state_value, loop_kind_label,
    loop_kind_slot, mtp3mg_label, next, screen_reason_label, screen_reason_slot, AbortSource, Dir,
    GttError, GttResultKind, LoopKind, M2paLinkState, Metrics, Mtp3MgKind, ScreenReason,
};
use crate::text::{decimal, digit, signed_decimal};
use vstd::prelude::*;
use vstd::string::*;

verus! {

/// No two kinds of one counter share a cell.
pub proof fn law_kinds_have_their_own_cells(
    a: (LoopKind, LoopKind),
    b: (ScreenReason, ScreenReason),
    c: (GttResultKind, GttResultKind),
    d: (GttError, GttError),
    e: (AbortSource, AbortSource),
)
    ensures
        loop_kind_slot(a.0) == loop_kind_slot(a.1) <==> a.0 == a.1,
        0 <= loop_kind_slot(a.0) < 3,
        screen_reason_slot(b.0) == screen_reason_slot(b.1) <==> b.0 == b.1,
        0 <= screen_reason_slot(b.0) < 3,
        gtt_result_slot(c.0) == gtt_result_slot(c.1) <==> c.0 == c.1,
        0 <= gtt_result_slot(c.0) < 4,
        gtt_error_slot(d.0) == gtt_error_slot(d.1) <==> d.0 == d.1,
        0 <= gtt_error_slot(d.0) < 3,
        abort_source_slot(e.0) == abort_source_slot(e.1) <==> e.0 == e.1,
        0 <= abort_source_slot(e.0) < 3,
{
}

/// A count of one kind leaves the counts of the others as they were: what is read after a
/// count is one more of that kind, and the same of every other.
pub proof fn law_count_is_of_its_kind(
    before: Seq<u64>,
    counted: LoopKind,
    read: LoopKind,
)
    requires
        before.len() == 3,
        before[loop_kind_slot(counted)] < u64::MAX,
    ensures
        ({
            let after = before.update(
                loop_kind_slot(counted),
                next(before[loop_kind_slot(counted)]),
            );
            after[loop_kind_slot(read)] == if read == counted {
                before[loop_kind_slot(read)] + 1
            } else {
                before[loop_kind_slot(read)] as int
            }
        }),
{
}

/// The labels under which the kinds are shown.
pub proof fn law_labels_of_kinds(
    a: LoopKind,
    b: ScreenReason,
    c: GttResultKind,
    d: GttError,
    e: AbortSource,
    f: Mtp3MgKind,
    g: Dir,
)
    ensures
        loop_kind_label(a) == (match a {
            LoopKind::OwnOpc => "own-opc"@,
            LoopKind::RouteReflect => "route-reflect"@,
            LoopKind::HopCounter => "hop-counter"@,
        }),
        screen_reason_label(b) == (match b {
            ScreenReason::Rule => "rule"@,
            ScreenReason::Default => "default"@,
            ScreenReason::DecodeError => "decode-error"@,
        }),
        gtt_result_label(c) == (match c {
            GttResultKind::Local => "local"@,
            GttResultKind::Dpc => "dpc"@,
            GttResultKind::Group => "group"@,
            GttResultKind::Tenant => "tenant"@,
        }),
        gtt_error_label(d) == (match d {
            GttError::NoTranslation => "no-translation"@,
            GttError::SsnProhibited => "ssn-prohibited"@,
            GttError::NoRoute => "no-route"@,
        }),
        abort_source_label(e) == (match e {
            AbortSource::User => "user"@,
            AbortSource::Provider => "provider"@,
            AbortSource::Local => "local"@,
        }),
        mtp3mg_label(f) == (match f {
            Mtp3MgKind::Tfp => "tfp"@,
            Mtp3MgKind::Tfa => "tfa"@,
            Mtp3MgKind::Pause => "pause"@,
            Mtp3MgKind::Resume => "resume"@,
            Mtp3MgKind::Congestion => "congestion"@,
        }),
        dir_label(g) == (match g {
            Dir::Rx => "rx"@,
            Dir::Tx => "tx"@,
        }),
{
}

/// A gauge shows 1 for yes and 0 for no, a count as itself, and a link as 0 when it
/// failed, 1 when it is aligned, 2 in service.
pub proof fn law_gauge_values(n: nat, s: M2paLinkState)
    ensures
        gauge(true) == 1,
        gauge(false) == 0,
        n <= i64::MAX ==> count_gauge(n) == n,
        n > i64::MAX ==> count_gauge(n) == i64::MAX,
        s == M2paLinkState::Failed <==> link_state_value(s) == 0,
        s == M2paLinkState::Aligned <==> link_state_value(s) == 1,
        s == M2paLinkState::InService <==> link_state_value(s) == 2,
{
}

/// The units of the two directions are counted apart.
pub proof fn law_directions_are_apart(m: Metrics)
    ensures
        m.msu_cells(Dir::Rx) == m.msu_rx@,
        m.msu_cells(Dir::Tx) == m.msu_tx@,
{
}

/// The number that a text of decimal digits writes.
pub open spec fn number_written(s: Seq<char>) -> int
    decreases s.len(),
{
    if s.len() == 0 {
        0
    } else {
        10 * number_written(s.drop_last()) + (s.last() as int - '0' as int)
    }
}

/// A number is written in decimal digits that read back as the number, with no leading
/// zero.
pub proof fn law_decimal_reads_back(n: nat)
    ensures
        number_written(decimal(n)) == n,
        decimal(n).len() > 0,
        forall|i: int| 0 <= i < decimal(n).len() ==> '0' <= #[trigger] decimal(n)[i] <= '9',
        n > 0 ==> decimal(n)[0] != '0',
    decreases n,
{
    if n < 10 {
        let s = decimal(n);
        assert(s.drop_last() =~= Seq::empty());
        assert(number_written(s.drop_last()) == 0);
        assert(s.last() as int - '0' as int == n);
    } else {
        law_decimal_reads_back(n / 10);
        let s = decimal(n);
        assert(s.drop_last() =~= decimal(n / 10));
        assert(s.last() == digit(n % 10));
        assert(s.last() as int - '0' as int == n % 10);
        assert forall|i: int| 0 <= i < s.len() implies '0' <= #[trigger] s[i] <= '9' by {
            if i < s.len() - 1 {
                assert(s[i] == decimal(n / 10)[i]);
            }
        }
    }
}

/// A negative number is written with a minus sign before its size, any other as it is.
pub proof fn law_sign_comes_first(n: int)
    ensures
        n >= 0 ==> signed_decimal(n) == decimal(n as nat),
        n < 0 ==> signed_decimal(n) == seq!['-'] + decimal((-n) as nat),
{
    reveal_strlit("-");
    if n < 0 {
        assert("-"@ =~= seq!['-']);
    }
}

/// A fresh set of metrics counts nothing.
pub proof fn law_fresh_metrics_count_nothing(m: Metrics, i: int)
    requires
        m.is_zero(),
    ensures
        0 <= i < 3 ==> m.loops@[i] == 0 && m.screened@[i] == 0 && m.errors@[i] == 0
            && m.abort_counts@[i] == 0,
        0 <= i < 4 ==> m.translations@[i] == 0,
        0 <= i < 16 ==> m.msu_rx@[i] == 0 && m.msu_tx@[i] == 0,
        m.active == 0,
        m.timeouts == 0,
        m.association_state.size() == 0,
        m.asp_state.size() == 0,
        m.linkset_available.size() == 0,
        m.linkset_active_links.size() == 0,
        m.m2pa_link_state.size() == 0,
        m.route_available.size() == 0,
        m.management_events.size() == 0,
        m.rule_hits.size() == 0,
        m.operation_timeouts.size() == 0,
{
}

/// What was never counted counts as 0; what was counted once counts as 1.
pub proof fn law_uncounted_is_zero(m: Map<(u32, Seq<char>), u64>, k: (u32, Seq<char>))
    ensures
        !m.contains_key(k) ==> count_at(m, k) == 0,
        m.contains_key(k) ==> count_at(m, k) == m[k],
        !m.contains_key(k) ==> count_at(m.insert(k, next(count_at(m, k))), k) == 1,
{
}

} // verus!
