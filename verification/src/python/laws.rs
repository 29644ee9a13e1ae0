//! Laws of the scripting interface.
use crate::content::view::{address_digits, tbcd};
use crate::dialogue::engine::Registrations;
use crate::dialogue::handle::DialogueModel;
use crate::dialogue::handle_laws::{after_steps, Step};
use crate::content::engine::{members, table_members};
use crate::content::laws::law_table_add_adds_one;
use crate::mtp3::route::{Choice, Egress};
use crate::point_code::Variant;
use crate::sccp::message::{
    sccp_encoded, AddressModel, MessageModel, SccpForm, SccpHead, TitleModel,
};
use crate::transport::msu::MsuModel;
use crate::python::builders::{
    arming_refusal, arms, called_list, called_octets, event_number, imsi_arg_octets, is_event,
    is_mode, isdn_octets, map_context, mode_number, prepared, AddrModel,
};
use crate::python::codec::{e164_octets, imsi_octets, EventType, MonitorMode};
use crate::python::command::{
    commanded, hex_text, opened_with, replayed, Command, Prepared, PyDialogue,
};
use crate::python::error::Refusal;
use crate::python::fields::{cap_initial_dp, inap_initial_dp};
use crate::python::node::{
    component_model, content_address_added, content_addresses, content_imsis, content_rule_added,
    content_rules, gt_model, is_prefix_rule, is_unconfigured, loopback_unit, only_tenant, owned_by, payload_of,
    registered_on, route_added, route_choice, rule_added, NodeState, StagedComponent,
};
use crate::python::operations::{
    cap_operations, code_in, codes_of, filter_outcome, inap_operations, is_white, map_operations,
    names_from, names_in, next_separator, trim_back, trim_front, trimmed,
};
use crate::python::peer::{
    carries_dialogue, coded_all, comp_of, first_of_kind, kind_name, local_error, local_invokes,
    local_result, maybe_coded, CompModel, PeerKind, PyDecoded, PyIncomingOp,
};
use crate::dialogue::turn::{OpModel, PeerModel};
use crate::sccp::gtt::{GttSelector, Translated};
use crate::sccp::title_laws::law_first_fitting_rule_translates;
use crate::config::{ContentRule, GttRule, NetworkIndicator, Tenant};
use crate::tenant::{Runtimes, TenantRuntime};
use crate::text::{are_digits, digit, packed, signal};
use crate::transaction::{
    arcs, has_dtid, has_otid, octets, transaction_octets, AbortBy, ComponentModel, ContextModel,
    OutgoingModel, StagedModel, TcKind, TcModel, UnwrittenModel,
};
use vstd::prelude::*;
use vstd::string::*;

verus! {

// ── Commands ────────────────────────────────────────────────────────────────

/// The step on a dialogue that a recorded command stands for.
pub open spec fn step_of(c: Command) -> Step {
    match c {
        Command::Invoke { op, arg } => Step::Invoke { operation: op, argument: arg },
        Command::Reply { op, result } => Step::Reply { operation: op, result },
        Command::ReplyTo { id, op, result } => Step::ReplyTo {
            invoke_id: id,
            operation: op,
            result,
        },
        Command::Error { id, code } => Step::Error { invoke_id: id, error: code },
        Command::Send => Step::Flush { closing: false },
        Command::End => Step::Flush { closing: true },
        Command::Abort => Step::Abort { by: AbortBy::User },
    }
}

/// What a script recorded is done on the dialogue in the order in which it was recorded,
/// each command as the step that it stands for: a send goes on, an end ends the dialogue,
/// an abort is by the user.
pub proof fn law_replay_takes_each_step(d: DialogueModel, cmds: Seq<Command>, n: int)
    requires
        0 <= n <= cmds.len(),
    ensures
        replayed(d, cmds, n) == after_steps(d, cmds.take(n).map_values(|c: Command| step_of(c))),
    decreases n,
{
    let steps = cmds.take(n).map_values(|c: Command| step_of(c));
    if n > 0 {
        law_replay_takes_each_step(d, cmds, n - 1);
        assert(steps.drop_last() =~= cmds.take(n - 1).map_values(|c: Command| step_of(c)));
        assert(steps.last() == step_of(cmds[n - 1]));
    }
}

/// A dialogue that a script opens with an operation starts with one Begin, under our
/// transaction id and with our context, that holds that one invoke under number 1.
pub proof fn law_script_opens_with_one_invoke(d: DialogueModel, op: i64, arg: Option<Seq<u8>>)
    requires
        d == DialogueModel::fresh_initiator(d.our_tid, d.ac, d.addressing),
    ensures
        opened_with(d, op, arg).out == seq![
            OutgoingModel::Begin {
                otid: d.our_tid,
                context: Some(d.ac),
                components: seq![
                    StagedModel::Invoke { invoke_id: 1, operation: op, parameter: arg },
                ],
            },
        ],
        !opened_with(d, op, arg).closed,
        opened_with(d, op, arg).pending.len() == 0,
{
    let s = commanded(d, Command::Invoke { op, arg });
    assert(s.pending =~= seq![StagedModel::Invoke { invoke_id: 1, operation: op, parameter: arg }]);
    assert(opened_with(d, op, arg).out =~= seq![
        OutgoingModel::Begin {
            otid: d.our_tid,
            context: Some(d.ac),
            components: seq![StagedModel::Invoke { invoke_id: 1, operation: op, parameter: arg }],
        },
    ]);
}

/// Octets are shown in hexadecimal, two digits each, the upper half first, in small
/// letters.
pub proof fn law_hex_shows_each_octet(b: Seq<u8>, n: int, i: int)
    requires
        0 <= i < n <= b.len(),
    ensures
        hex_text(b, n).len() == 2 * n,
        is_hex(hex_text(b, n)[2 * i], b[i] as int / 16),
        is_hex(hex_text(b, n)[2 * i + 1], b[i] as int % 16),
    decreases n,
{
    hex_length(b, n - 1);
    if i < n - 1 {
        law_hex_shows_each_octet(b, n - 1, i);
    }
}

/// A character is the hexadecimal digit of a number under 16.
pub open spec fn is_hex(c: char, n: int) -> bool {
    if n < 10 {
        c as int == '0' as int + n
    } else {
        c as int == 'a' as int + n - 10
    }
}

proof fn hex_length(b: Seq<u8>, n: int)
    requires
        0 <= n,
    ensures
        hex_text(b, n).len() == 2 * n,
    decreases n,
{
    if n > 0 {
        hex_length(b, n - 1);
    }
}

// ── Operation filters ───────────────────────────────────────────────────────

proof fn front_is_trimmed(s: Seq<char>) -> (k: int)
    ensures
        0 <= k <= s.len(),
        trim_front(s) == s.skip(k),
        forall|i: int| 0 <= i < k ==> is_white(#[trigger] s[i]),
        k < s.len() ==> !is_white(s[k]),
    decreases s.len(),
{
    if s.len() > 0 && is_white(s[0]) {
        let t = s.drop_first();
        let k = front_is_trimmed(t);
        assert(t.skip(k) =~= s.skip(k + 1));
        assert forall|i: int| 0 <= i < k + 1 implies is_white(#[trigger] s[i]) by {
            if i > 0 {
                assert(t[i - 1] == s[i]);
            }
        }
        if k + 1 < s.len() {
            assert(t[k] == s[k + 1]);
        }
        k + 1
    } else {
        assert(s.skip(0) =~= s);
        0
    }
}

proof fn back_is_trimmed(s: Seq<char>) -> (k: int)
    ensures
        0 <= k <= s.len(),
        trim_back(s) == s.take(k),
        forall|i: int| k <= i < s.len() ==> is_white(#[trigger] s[i]),
        k > 0 ==> !is_white(s[k - 1]),
    decreases s.len(),
{
    if s.len() > 0 && is_white(s.last()) {
        let t = s.drop_last();
        let k = back_is_trimmed(t);
        assert(t.take(k) =~= s.take(k));
        assert forall|i: int| k <= i < s.len() implies is_white(#[trigger] s[i]) by {
            if i < t.len() {
                assert(t[i] == s[i]);
            }
        }
        if k > 0 {
            assert(t[k - 1] == s[k - 1]);
        }
        k
    } else {
        assert(s.take(s.len() as int) =~= s);
        s.len() as int
    }
}

/// Trimming takes the white space off both ends of a text and nothing else.
pub proof fn law_trim_takes_white_ends(s: Seq<char>)
    ensures
        exists|i: int, j: int|
            0 <= i <= j <= s.len() && trimmed(s) == #[trigger] s.subrange(i, j) && (forall|k: int|
                0 <= k < i ==> is_white(#[trigger] s[k])) && (forall|k: int|
                j <= k < s.len() ==> is_white(#[trigger] s[k])),
        trimmed(s).len() > 0 ==> !is_white(trimmed(s)[0]) && !is_white(trimmed(s).last()),
{
    let i = front_is_trimmed(s);
    let t = trim_front(s);
    let k = back_is_trimmed(t);
    let j = i + k;
    assert(trimmed(s) =~= s.subrange(i, j));
    assert forall|x: int| j <= x < s.len() implies is_white(#[trigger] s[x]) by {
        assert(t[x - i] == s[x]);
    }
    if k > 0 {
        assert(t[0] == s[i]);
        assert(t[k - 1] == s[j - 1]);
    }
}

proof fn separator_found(s: Seq<char>, sep: char, from: int)
    requires
        0 <= from <= s.len(),
    ensures
        from <= next_separator(s, sep, from) <= s.len(),
        next_separator(s, sep, from) < s.len() ==> s[next_separator(s, sep, from)] == sep,
        forall|i: int| from <= i < next_separator(s, sep, from) ==> #[trigger] s[i] != sep,
    decreases s.len() - from,
{
    if from < s.len() && s[from] != sep {
        separator_found(s, sep, from + 1);
    }
}

proof fn separator_in_sum(a: Seq<char>, b: Seq<char>, sep: char, from: int)
    requires
        0 <= from <= b.len(),
    ensures
        next_separator(a + b, sep, a.len() + from) == a.len() + next_separator(b, sep, from),
    decreases b.len() - from,
{
    if from < b.len() {
        assert((a + b)[a.len() + from] == b[from]);
        separator_in_sum(a, b, sep, from + 1);
    }
}

proof fn names_in_sum(a: Seq<char>, b: Seq<char>, from: int)
    requires
        0 <= from <= b.len(),
    ensures
        names_from(a + b, a.len() + from) == names_from(b, from),
    decreases b.len() - from,
{
    let s = a + b;
    separator_in_sum(a, b, '|', from);
    separator_found(b, '|', from);
    let end = next_separator(b, '|', from);
    assert(s.subrange(a.len() + from, a.len() + end) =~= b.subrange(from, end));
    if end < b.len() {
        names_in_sum(a, b, end + 1);
    }
}

/// A filter lists names with bars between them: a filter before a bar gives its names,
/// and then come those of the filter after it. A part without a bar gives the one name in
/// it, without the white space around it, and none if it is blank.
pub proof fn law_filter_is_split_at_bars(part: Seq<char>, rest: Seq<char>)
    requires
        forall|i: int| 0 <= i < part.len() ==> #[trigger] part[i] != '|',
    ensures
        trimmed(part).len() > 0 ==> names_in(part) == seq![trimmed(part)] && names_in(
            part + seq!['|'] + rest,
        ) == seq![trimmed(part)] + names_in(rest),
        trimmed(part).len() == 0 ==> names_in(part).len() == 0 && names_in(part + seq!['|'] + rest)
            == names_in(rest),
{
    separator_found(part, '|', 0);
    assert(next_separator(part, '|', 0) == part.len());
    assert(part.subrange(0, part.len() as int) =~= part);
    let head = part + seq!['|'];
    let s = head + rest;
    separator_found(s, '|', 0);
    let end = next_separator(s, '|', 0);
    assert(s[part.len() as int] == '|');
    if end < part.len() {
        assert(s[end] == part[end]);
    }
    assert(end == part.len());
    assert(s.subrange(0, end) =~= part);
    names_in_sum(head, rest, 0);
    if trimmed(part).len() > 0 {
        assert(names_in(part) =~= seq![trimmed(part)]);
    }
}

/// A name is in a table with a code, and no earlier entry has the name.
pub open spec fn stands_for(t: Seq<(Seq<char>, i64)>, name: Seq<char>, code: i64) -> bool {
    exists|i: int|
        0 <= i < t.len() && #[trigger] t[i] == (name, code) && forall|j: int|
            0 <= j < i ==> (#[trigger] t[j]).0 != name
}

proof fn code_is_first(t: Seq<(Seq<char>, i64)>, name: Seq<char>, from: int)
    requires
        0 <= from,
        forall|j: int| 0 <= j < from && j < t.len() ==> (#[trigger] t[j]).0 != name,
    ensures
        code_in(t, name, from) matches Some(c) ==> stands_for(t, name, c),
        code_in(t, name, from) is None ==> forall|j: int|
            0 <= j < t.len() ==> (#[trigger] t[j]).0 != name,
    decreases t.len() - from,
{
    if from < t.len() {
        if t[from].0 == name {
            assert(t[from] == (name, t[from].1));
        } else {
            code_is_first(t, name, from + 1);
        }
    }
}

proof fn codes_are_found(names: Seq<Seq<char>>, t: Seq<(Seq<char>, i64)>)
    ensures
        codes_of(names, t) matches Ok(codes) ==> codes.len() == names.len() && forall|i: int|
            0 <= i < names.len() ==> stands_for(t, names[i], #[trigger] codes[i]),
        codes_of(names, t) matches Err(n) ==> exists|i: int|
            0 <= i < names.len() && #[trigger] names[i] == n && (forall|k: int|
                0 <= k < t.len() ==> (#[trigger] t[k]).0 != n) && forall|j: int|
                0 <= j < i ==> code_in(t, #[trigger] names[j], 0) is Some,
    decreases names.len(),
{
    if names.len() > 0 {
        let rest = names.drop_first();
        codes_are_found(rest, t);
        code_is_first(t, names[0], 0);
        match codes_of(names, t) {
            Ok(codes) => {
                let less = codes_of(rest, t)->Ok_0;
                assert forall|i: int| 0 <= i < names.len() implies stands_for(
                    t,
                    names[i],
                    #[trigger] codes[i],
                ) by {
                    if i > 0 {
                        assert(rest[i - 1] == names[i]);
                        assert(codes[i] == less[i - 1]);
                    }
                }
            },
            Err(n) => {
                if code_in(t, names[0], 0) is None {
                    assert(names[0] == n);
                } else {
                    let i = choose|i: int|
                        0 <= i < rest.len() && #[trigger] rest[i] == n && (forall|k: int|
                            0 <= k < t.len() ==> (#[trigger] t[k]).0 != n) && forall|j: int|
                            0 <= j < i ==> code_in(t, #[trigger] rest[j], 0) is Some;
                    assert(names[i + 1] == n);
                    assert forall|j: int| 0 <= j < i + 1 implies code_in(t, #[trigger] names[j], 0)
                        is Some by {
                        if j > 0 {
                            assert(rest[j - 1] == names[j]);
                        }
                    }
                }
            },
        }
    }
}

/// A filter gives the codes of its names, in order and one for each; it is refused for the
/// first name that the table does not have, and for having no name at all.
pub proof fn law_filter_gives_its_codes(filter: Seq<char>, t: Seq<(Seq<char>, i64)>)
    ensures
        ({
            let names = names_in(filter);
            let out = filter_outcome(filter, t);
            &&& out matches Ok(codes) ==> names.len() > 0 && codes.len() == names.len()
                && forall|i: int|
                0 <= i < names.len() ==> stands_for(t, names[i], #[trigger] codes[i])
            &&& out is Err && out->Err_0 is EmptyFilter <==> names.len() == 0
            &&& out is Err && !(out->Err_0 is EmptyFilter) ==> out->Err_0 is UnknownOperation
                && exists|i: int|
                0 <= i < names.len() && #[trigger] names[i] == out->Err_0->UnknownOperation_name
                    && forall|k: int|
                    0 <= k < t.len() ==> (#[trigger] t[k]).0 != out->Err_0->UnknownOperation_name
        }),
{
    codes_are_found(names_in(filter), t);
}

/// The operations of each protocol and their codes.
pub proof fn law_tables_of_operations()
    ensures
        map_operations().len() == 10,
        map_operations().contains(("mo-forward-sm"@, 46i64)),
        map_operations().contains(("mt-forward-sm"@, 44i64)),
        map_operations().contains(("sri-sm"@, 45i64)),
        map_operations().contains(("report-sm-delivery-status"@, 47i64)),
        map_operations().contains(("ready-for-sm"@, 66i64)),
        map_operations().contains(("update-location"@, 2i64)),
        map_operations().contains(("cancel-location"@, 3i64)),
        map_operations().contains(("purge-ms"@, 67i64)),
        map_operations().contains(("send-auth-info"@, 56i64)),
        map_operations().contains(("provide-subscriber-info"@, 70i64)),
        cap_operations().len() == 2,
        cap_operations().contains(("initial-dp"@, 0i64)),
        cap_operations().contains(("event-report-bcsm"@, 24i64)),
        inap_operations().len() == 6,
        inap_operations().contains(("initial-dp"@, 0i64)),
        inap_operations().contains(("event-report-bcsm"@, 24i64)),
        inap_operations().contains(("apply-charging-report"@, 36i64)),
        inap_operations().contains(("assist-request-instructions"@, 16i64)),
        inap_operations().contains(("call-information-report"@, 44i64)),
        inap_operations().contains(("specialized-resource-report"@, 49i64)),
{
    let m = map_operations();
    assert(m[0] == ("mo-forward-sm"@, 46i64));
    assert(m[1] == ("mt-forward-sm"@, 44i64));
    assert(m[2] == ("sri-sm"@, 45i64));
    assert(m[3] == ("report-sm-delivery-status"@, 47i64));
    assert(m[4] == ("ready-for-sm"@, 66i64));
    assert(m[5] == ("update-location"@, 2i64));
    assert(m[6] == ("cancel-location"@, 3i64));
    assert(m[7] == ("purge-ms"@, 67i64));
    assert(m[8] == ("send-auth-info"@, 56i64));
    assert(m[9] == ("provide-subscriber-info"@, 70i64));
    let c = cap_operations();
    assert(c[0] == ("initial-dp"@, 0i64));
    assert(c[1] == ("event-report-bcsm"@, 24i64));
    let n = inap_operations();
    assert(n[0] == ("initial-dp"@, 0i64));
    assert(n[1] == ("event-report-bcsm"@, 24i64));
    assert(n[2] == ("apply-charging-report"@, 36i64));
    assert(n[3] == ("assist-request-instructions"@, 16i64));
    assert(n[4] == ("call-information-report"@, 44i64));
    assert(n[5] == ("specialized-resource-report"@, 49i64));
}

// ── What a peer sent ────────────────────────────────────────────────────────

/// The first component of a kind is the one found.
pub proof fn law_first_of_its_kind(cs: Seq<CompModel>, kind: PeerKind, from: int, i: int)
    requires
        0 <= from,
    ensures
        from <= i < cs.len() && cs[i].kind == kind && (forall|j: int|
            from <= j < i ==> (#[trigger] cs[j]).kind != kind) ==> first_of_kind(cs, kind, from)
            == Some(cs[i]),
        (forall|j: int| from <= j < cs.len() ==> (#[trigger] cs[j]).kind != kind) ==> first_of_kind(
            cs,
            kind,
            from,
        ) is None,
    decreases cs.len() - from,
{
    if from < cs.len() {
        law_first_of_its_kind(cs, kind, from + 1, i);
    }
}

/// A script sees a component of a peer as what it is, under its own invoke id, with its
/// operation, its parameter or its error.
pub proof fn law_component_is_shown_as_it_is(c: PeerModel)
    ensures
        c matches PeerModel::Invoke { invoke_id, operation_code, argument } ==> comp_of(c) == (
        CompModel {
            kind: PeerKind::Invoke,
            operation_code: Some(operation_code),
            invoke_id,
            parameter: argument,
            error_code: None,
        }),
        c matches PeerModel::Result { invoke_id, operation_code, parameter } ==> comp_of(c) == (
        CompModel {
            kind: PeerKind::Result,
            operation_code,
            invoke_id,
            parameter,
            error_code: None,
        }),
        c matches PeerModel::Error { invoke_id, error_code } ==> comp_of(c) == (CompModel {
            kind: PeerKind::Error,
            operation_code: None,
            invoke_id,
            parameter: None,
            error_code: Some(error_code),
        }),
{
}

/// A message's first result by a local code and its first error by a local code are the
/// ones shown, and all its invokes by a local code, in order.
pub proof fn law_components_shown_of_a_message(cs: Seq<ComponentModel>, n: int, i: int)
    requires
        0 <= i < n <= cs.len(),
    ensures
        cs[i] is ResultWith && cs[i]->ResultWith_operation is Some && (forall|j: int|
            0 <= j < i ==> !((#[trigger] cs[j]) is ResultWith && cs[j]->ResultWith_operation
                is Some)) ==> local_result(cs, n) == Some(
            (cs[i]->ResultWith_operation->Some_0, cs[i]->ResultWith_parameter),
        ),
        cs[i] is Error && cs[i]->error is Some && (forall|j: int|
            0 <= j < i ==> !((#[trigger] cs[j]) is Error && cs[j]->error is Some)) ==> local_error(
            cs,
            n,
        ) == Some((cs[i]->Error_invoke_id, cs[i]->error->Some_0)),
        cs[i] is Invoke && cs[i]->Invoke_operation is Some ==> local_invokes(cs, i).len()
            < local_invokes(cs, n).len() && local_invokes(cs, n)[local_invokes(cs, i).len() as int]
            == (cs[i]->Invoke_operation->Some_0, cs[i]->Invoke_parameter),
    decreases n,
{
    if i < n - 1 {
        law_components_shown_of_a_message(cs, n - 1, i);
    } else {
        if forall|j: int|
            0 <= j < i ==> !((#[trigger] cs[j]) is ResultWith && cs[j]->ResultWith_operation
                is Some) {
            no_result(cs, i);
        }
        if forall|j: int| 0 <= j < i ==> !((#[trigger] cs[j]) is Error && cs[j]->error is Some) {
            no_error(cs, i);
        }
    }
}

proof fn no_result(cs: Seq<ComponentModel>, n: int)
    requires
        forall|j: int|
            0 <= j < n ==> !((#[trigger] cs[j]) is ResultWith && cs[j]->ResultWith_operation
                is Some),
    ensures
        local_result(cs, n) is None,
    decreases n,
{
    if n > 0 {
        no_result(cs, n - 1);
        assert(!(cs[n - 1] is ResultWith && cs[n - 1]->ResultWith_operation is Some));
    }
}

proof fn no_error(cs: Seq<ComponentModel>, n: int)
    requires
        forall|j: int| 0 <= j < n ==> !((#[trigger] cs[j]) is Error && cs[j]->error is Some),
    ensures
        local_error(cs, n) is None,
    decreases n,
{
    if n > 0 {
        no_error(cs, n - 1);
        assert(!(cs[n - 1] is Error && cs[n - 1]->error is Some));
    }
}

// ── The node ────────────────────────────────────────────────────────────────

/// A handler that a script registers for an operation is registered on each of the
/// subsystems, with no change to any other operation or subsystem.
pub proof fn law_script_registers_on_each_subsystem(
    t: Registrations,
    ssns: Seq<u8>,
    op: i64,
    first: nat,
    n: int,
    i: int,
    other: (u32, i64),
)
    requires
        0 <= i < n <= ssns.len(),
        first + n <= usize::MAX,
        forall|j: int| 0 <= j < n ==> other != (#[trigger] ssns[j] as u32, op),
    ensures
        registered_on(t, ssns, op, first, n).contains_key((ssns[i] as u32, op)),
        first <= registered_on(t, ssns, op, first, n)[(ssns[i] as u32, op)] < first + n,
        registered_on(t, ssns, op, first, n).contains_key(other) <==> t.contains_key(other),
        t.contains_key(other) ==> registered_on(t, ssns, op, first, n)[other] == t[other],
    decreases n,
{
    others_stay(t, ssns, op, first, n, other);
    if i < n - 1 {
        others_stay(t, ssns, op, first, n - 1, other);
        law_script_registers_on_each_subsystem(t, ssns, op, first, n - 1, i, other);
    }
}

proof fn others_stay(
    t: Registrations,
    ssns: Seq<u8>,
    op: i64,
    first: nat,
    n: int,
    other: (u32, i64),
)
    requires
        0 <= n <= ssns.len(),
        forall|j: int| 0 <= j < n ==> other != (#[trigger] ssns[j] as u32, op),
    ensures
        registered_on(t, ssns, op, first, n).contains_key(other) <==> t.contains_key(other),
        t.contains_key(other) ==> registered_on(t, ssns, op, first, n)[other] == t[other],
    decreases n,
{
    if n > 0 {
        assert(other != (ssns[n - 1] as u32, op));
        others_stay(t, ssns, op, first, n - 1, other);
    }
}

/// The subsystems that a script's handlers serve: those of the configuration, or the HLR,
/// the MSC and the CAP subsystem where it names none.
pub proof fn law_subsystems_served(local: Seq<u8>)
    ensures
        local.len() > 0 ==> owned_by(local) == local,
        local.len() == 0 ==> owned_by(local) == seq![6u8, 8u8, 146u8],
{
}

/// A route that a script adds leads over the server or over the linkset that it names; it
/// is refused if it names both or neither.
pub proof fn law_script_route_names_one(a: Option<Seq<char>>, l: Option<Seq<char>>)
    ensures
        route_choice(a, l) is Ok <==> (a is Some) != (l is Some),
        a is Some && l is None ==> route_choice(a, l) == Ok::<Egress, Refusal>(
            Egress::ApplicationServer(a->Some_0),
        ),
        a is None && l is Some ==> route_choice(a, l) == Ok::<Egress, Refusal>(
            Egress::Linkset(l->Some_0),
        ),
        a is Some && l is Some ==> route_choice(a, l) == Err::<Egress, Refusal>(
            Refusal::RouteNamesBoth,
        ),
        a is None && l is None ==> route_choice(a, l) == Err::<Egress, Refusal>(
            Refusal::RouteNamesNeither,
        ),
{
}

/// After a script maps a prefix to an address, every title that begins with the prefix
/// translates to that address, whatever rules were there before, in whatever numbering
/// plan and whatever else it carries.
pub proof fn law_added_prefix_translates(
    before: TenantRuntime,
    after: TenantRuntime,
    rule: GttRule,
    gt: Seq<char>,
    dpc: u32,
    ssn: u8,
    sel: GttSelector,
)
    requires
        rule_added(before, after, rule),
        is_prefix_rule(rule, gt, dpc, ssn),
        gt.is_prefix_of(sel.digits@),
    ensures
        after.gtt.translation(sel@) == Some(Translated::Dpc { dpc, ssn }),
        after.gtt.groups_after(sel@) == before.gtt.group_map(),
{
    assert(after.gtt.rule_list()[0] == rule);
    law_first_fitting_rule_translates(after.gtt, sel, 0);
    let r = after.gtt.translation(sel@)->Some_0;
    assert(r is Dpc && r->Dpc_dpc == dpc && r->Dpc_ssn == ssn);
}

/// After a script adds a content rule, the rules that were there come after it, in their
/// order.
pub proof fn law_added_content_rule_comes_first(
    before: TenantRuntime,
    after: TenantRuntime,
    rule: ContentRule,
    i: int,
)
    requires
        content_rule_added(before, after, rule),
        0 <= i < content_rules(before).len(),
    ensures
        content_rules(after).len() == content_rules(before).len() + 1,
        content_rules(after)[0].name == rule.name,
        content_rules(after)[i + 1] == content_rules(before)[i],
{
    assert(content_rules(after).drop_first()[i] == content_rules(after)[i + 1]);
}

// ── Digits ──────────────────────────────────────────────────────────────────

proof fn digits_read_back(d: Seq<char>)
    requires
        are_digits(d),
    ensures
        tbcd(packed(d, 15)) == d,
    decreases d.len(),
{
    let b = packed(d, 15);
    if d.len() == 0 {
        assert(b.len() == 0);
        assert(tbcd(b) =~= d);
    } else {
        assert('0' <= d[0] <= '9');
        let x = signal(d[0])->Some_0;
        assert(x <= 9);
        if d.len() == 1 {
            assert(b.len() == 1);
            assert(b[0] == x + 16 * 15);
            assert(b[0] as nat % 16 == x);
            assert(b[0] as nat / 16 == 15);
            assert(digit(x as nat) == d[0]);
            assert(tbcd(b) =~= d);
        } else {
            assert('0' <= d[1] <= '9');
            let y = signal(d[1])->Some_0;
            assert(b[0] == x + 16 * y);
            assert(b[0] as nat % 16 == x);
            assert(b[0] as nat / 16 == y);
            let rest = d.skip(2);
            assert forall|i: int| 0 <= i < rest.len() implies '0' <= #[trigger] rest[i] <= '9' by {
                assert(rest[i] == d[i + 2]);
            }
            digits_read_back(rest);
            let more = packed(rest, 15);
            assert(b.drop_first() =~= more) by {
                assert(b.len() == more.len() + 1);
                assert forall|i: int| 0 <= i < more.len() implies #[trigger] b.drop_first()[i]
                    == more[i] by {
                    assert(rest[2 * i] == d[2 * (i + 1)]);
                    if 2 * i + 1 < rest.len() {
                        assert(rest[2 * i + 1] == d[2 * (i + 1) + 1]);
                    }
                }
            }
            assert(digit(x as nat) == d[0]);
            assert(digit(y as nat) == d[1]);
            assert(tbcd(b) == seq![d[0], d[1]] + tbcd(more));
            assert(tbcd(b) =~= d);
        }
    }
}

/// An IMSI that a script gives in digits reads back as those digits, and so does a number
/// after its type octet.
pub proof fn law_digits_read_back(d: Seq<char>)
    requires
        are_digits(d),
    ensures
        imsi_octets(d) matches Ok(b) && tbcd(b) == d,
        e164_octets(d) matches Ok(b) && address_digits(b) == d,
{
    digits_read_back(d);
    assert forall|i: int| 0 <= i < d.len() implies signal(#[trigger] d[i]) is Some by {
        assert('0' <= d[i] <= '9');
    }
    let b = e164_octets(d)->Ok_0;
    assert(b.drop_first() =~= packed(d, 15));
}

// ── Changes of the node ─────────────────────────────────────────────────────

/// A change of a node's router leaves its engine, its tenant and its subsystems alone.
pub proof fn law_router_change_keeps_the_rest<H>(a: &NodeState<H>, b: &NodeState<H>)
    requires
        a.same_but_router(b),
    ensures
        a.engine == b.engine,
        a.tenant == b.tenant,
        a.local_ssns == b.local_ssns,
{
}

/// A change of one tenant leaves every other as it was.
pub proof fn law_other_tenants_stay(
    before: Runtimes,
    after: Runtimes,
    tenant: Seq<char>,
    other: Seq<char>,
)
    requires
        only_tenant(before, after, tenant),
    ensures
        after.contains_key(other) <==> before.contains_key(other),
        other != tenant && before.contains_key(other) ==> after[other] == before[other],
{
}

/// A route that a script adds is one of the routes to its point code from then on; the
/// routes to other point codes and the rest of the tenant stay.
pub proof fn law_script_route_is_added(
    before: TenantRuntime,
    after: TenantRuntime,
    dpc: u32,
    choice: Choice,
    other: u32,
)
    requires
        route_added(before, after, dpc, choice),
    ensures
        after.routes.candidates(dpc).contains(choice),
        before.routes.candidates(dpc).is_prefix_of(after.routes.candidates(dpc)),
        other != dpc ==> after.routes.candidates(other) == before.routes.candidates(other),
        after.routes.var() == before.routes.var(),
        after.route_state == before.route_state,
        after.gtt == before.gtt,
        after.content == before.content,
        after.point_code == before.point_code,
{
    let a = after.routes.candidates(dpc);
    let b = before.routes.candidates(dpc);
    if !b.contains(choice) {
        assert(a == b.push(choice));
        assert(a[b.len() as int] == choice);
    }
    assert(b.is_prefix_of(a));
}

/// Digits that a script adds to an address table are in that table from then on, beside
/// those that were there; other tables, the IMSI tables and the rules stay.
pub proof fn law_script_address_is_added(
    before: TenantRuntime,
    after: TenantRuntime,
    table: Seq<char>,
    addr: Seq<char>,
    x: Seq<char>,
    other: Seq<char>,
)
    requires
        content_address_added(before, after, table, addr),
    ensures
        content_addresses(after).contains_key(table),
        members(content_addresses(after)[table]).contains(x) <==> x == addr || (
        content_addresses(before).contains_key(table) && members(
            content_addresses(before)[table],
        ).contains(x)),
        other != table && content_addresses(before).contains_key(other) ==> content_addresses(
            after,
        )[other] == content_addresses(before)[other],
        content_imsis(after) == content_imsis(before),
        content_rules(after) == content_rules(before),
        after.gtt == before.gtt,
        after.routes == before.routes,
{
    law_table_add_adds_one(table_members(content_addresses(before), table), addr, x);
}

/// A translation rule that a script adds comes first; the rules that were there follow in
/// their order, and groups and subsystems stay.
pub proof fn law_script_rule_comes_first(
    before: TenantRuntime,
    after: TenantRuntime,
    rule: GttRule,
    i: int,
)
    requires
        rule_added(before, after, rule),
    ensures
        after.gtt.rule_list().len() == before.gtt.rule_list().len() + 1,
        after.gtt.rule_list()[0] == rule,
        0 <= i < before.gtt.rule_list().len() ==> after.gtt.rule_list()[i + 1]
            == before.gtt.rule_list()[i],
        after.gtt.group_map() == before.gtt.group_map(),
        after.gtt.owned() == before.gtt.owned(),
        after.routes == before.routes,
        after.content == before.content,
{
}

/// A node without a configuration has point code 1 in the international variant, and no
/// servers, linksets, routes or rules.
pub proof fn law_unconfigured_node(t: Tenant)
    requires
        is_unconfigured(t),
    ensures
        t.point_code.0 == 1,
        t.variant == Variant::Itu,
        t.application_servers@.len() == 0,
        t.linksets@.len() == 0,
        t.mtp3_routes@.len() == 0,
        t.sccp.gtt@.len() == 0,
        t.sccp.gtt_groups@.len() == 0,
        t.sccp.local_ssns@.len() == 0,
        t.content_routing is None,
        t.isup_screening is None,
{
}

/// What a script originates comes from the point code that it names, or else from the
/// tenant's, in the tenant's network.
pub proof fn law_origin_of_a_script<H>(s: &NodeState<H>, opc: Option<u32>)
    ensures
        opc matches Some(p) ==> s.origin_pc(opc) == p,
        opc is None && s.router.runtimes().contains_key(s.tenant@) ==> s.origin_pc(opc)
            == s.router.runtimes()[s.tenant@].point_code,
        opc is None && !s.router.runtimes().contains_key(s.tenant@) ==> s.origin_pc(opc) == 0,
        s.router.runtimes().contains_key(s.tenant@) ==> s.origin_ni() == (
        match s.router.runtimes()[s.tenant@].network_indicator {
            NetworkIndicator::International => 0u8,
            NetworkIndicator::InternationalSpare => 1u8,
            NetworkIndicator::National => 2u8,
            NetworkIndicator::NationalSpare => 3u8,
        }),
{
}

/// An address by title is routed on an international E.164 title with its digits and the
/// subsystem given.
pub proof fn law_address_by_title(digits: Seq<char>, ssn: Option<u8>)
    ensures
        gt_model(digits, ssn).ssn == ssn,
        gt_model(digits, ssn).point_code is None,
        !gt_model(digits, ssn).route_on_ssn,
        gt_model(digits, ssn).global_title == (TitleModel::Gt0100 {
            translation_type: 0,
            numbering_plan: 1,
            encoding_scheme: 1,
            nature_of_address: 4,
            digits,
        }),
{
}

/// A message handed in for a trial is an SCCP unit between the given point codes.
pub proof fn law_trial_unit(payload: Seq<u8>, opc: u32, dpc: u32)
    ensures
        loopback_unit(payload, opc, dpc) == (MsuModel {
            opc,
            dpc,
            si: 3,
            ni: 0,
            mp: 0,
            sls: 0,
            payload,
        }),
{
}

/// A component that a script prepared goes out under the invoke id given, with its own
/// operation and octets.
pub proof fn law_prepared_component(c: StagedComponent, invoke_id: i64)
    ensures
        c matches StagedComponent::Result(r) ==> component_model(c, invoke_id) == (
        StagedModel::ResultLast { invoke_id, operation: r@.op, parameter: r@.octets }),
        c matches StagedComponent::Invoke(i) ==> component_model(c, invoke_id) == (
        StagedModel::Invoke { invoke_id, operation: i@.op, parameter: i@.octets }),
{
}

// ── Events and modes ────────────────────────────────────────────────────────

/// The numbers of the detection points and of the ways to monitor them.
pub proof fn law_event_and_mode_numbers(e: EventType, m: MonitorMode)
    ensures
        e == EventType::CollectedInfo <==> event_number(e) == 2,
        e == EventType::AnalysedInformation <==> event_number(e) == 3,
        e == EventType::RouteSelectFailure <==> event_number(e) == 4,
        e == EventType::OCalledPartyBusy <==> event_number(e) == 5,
        e == EventType::ONoAnswer <==> event_number(e) == 6,
        e == EventType::OAnswer <==> event_number(e) == 7,
        e == EventType::ODisconnect <==> event_number(e) == 9,
        e == EventType::OAbandon <==> event_number(e) == 10,
        e == EventType::TermAttemptAuthorized <==> event_number(e) == 12,
        e == EventType::TBusy <==> event_number(e) == 13,
        e == EventType::TNoAnswer <==> event_number(e) == 14,
        e == EventType::TAnswer <==> event_number(e) == 15,
        e == EventType::TDisconnect <==> event_number(e) == 17,
        e == EventType::TAbandon <==> event_number(e) == 18,
        m == MonitorMode::Interrupted <==> mode_number(m) == 0,
        m == MonitorMode::NotifyAndContinue <==> mode_number(m) == 1,
        m == MonitorMode::Transparent <==> mode_number(m) == 2,
{
}

/// A number is that of a detection point exactly if it is from 2 to 18 and not 8, 11 or
/// 16; one from 0 to 2 is that of a way to monitor.
pub proof fn law_known_numbers(v: i64)
    ensures
        is_event(v) <==> 2 <= v <= 18 && v != 8 && v != 11 && v != 16,
        is_mode(v) <==> 0 <= v <= 2,
{
    assert(event_number(EventType::CollectedInfo) == 2);
    assert(event_number(EventType::AnalysedInformation) == 3);
    assert(event_number(EventType::RouteSelectFailure) == 4);
    assert(event_number(EventType::OCalledPartyBusy) == 5);
    assert(event_number(EventType::ONoAnswer) == 6);
    assert(event_number(EventType::OAnswer) == 7);
    assert(event_number(EventType::ODisconnect) == 9);
    assert(event_number(EventType::OAbandon) == 10);
    assert(event_number(EventType::TermAttemptAuthorized) == 12);
    assert(event_number(EventType::TBusy) == 13);
    assert(event_number(EventType::TNoAnswer) == 14);
    assert(event_number(EventType::TAnswer) == 15);
    assert(event_number(EventType::TDisconnect) == 17);
    assert(event_number(EventType::TAbandon) == 18);
    assert(mode_number(MonitorMode::Interrupted) == 0);
    assert(mode_number(MonitorMode::NotifyAndContinue) == 1);
    assert(mode_number(MonitorMode::Transparent) == 2);
    if is_event(v) {
        let e = choose|e: EventType| event_number(e) == v;
        assert(event_number(e) == v);
    }
    if is_mode(v) {
        let m = choose|m: MonitorMode| mode_number(m) == v;
        assert(mode_number(m) == v);
    }
}

/// A list of detection points to arm is refused for its first pair that has an unknown
/// number: for its event, or else for its mode. A list without one is armed pair by pair,
/// in order.
pub proof fn law_arming_is_refused_for_the_first(
    s: Seq<(i64, i64)>,
    from: int,
    i: int,
    armed: Seq<(EventType, MonitorMode)>,
)
    requires
        0 <= from,
    ensures
        from <= i < s.len() && !is_event(s[i].0) && (forall|j: int|
            from <= j < i ==> is_event((#[trigger] s[j]).0) && is_mode(s[j].1)) ==> arming_refusal(
            s,
            from,
        ) == Some(Refusal::UnknownEventType(s[i].0)),
        from <= i < s.len() && is_event(s[i].0) && !is_mode(s[i].1) && (forall|j: int|
            from <= j < i ==> is_event((#[trigger] s[j]).0) && is_mode(s[j].1)) ==> arming_refusal(
            s,
            from,
        ) == Some(Refusal::UnknownMonitorMode(s[i].1)),
        (forall|j: int| from <= j < s.len() ==> is_event((#[trigger] s[j]).0) && is_mode(s[j].1))
            ==> arming_refusal(s, from) is None,
        arms(armed, s) ==> armed.len() == s.len() && (0 <= i < s.len() ==> event_number(armed[i].0)
            == s[i].0 && mode_number(armed[i].1) == s[i].1),
    decreases s.len() - from,
{
    if from < s.len() {
        law_arming_is_refused_for_the_first(s, from + 1, i, armed);
        if from < i {
            assert(is_event(s[from].0) && is_mode(s[from].1) || !(forall|j: int|
                from <= j < i ==> is_event((#[trigger] s[j]).0) && is_mode(s[j].1)));
        }
    }
}

/// White space is what separates words, and no letter, digit, dash or bar is.
pub proof fn law_white_space(c: char)
    ensures
        c == ' ' || c == '\t' || c == '\n' || c == '\r' ==> is_white(c),
        'a' <= c <= 'z' || 'A' <= c <= 'Z' || '0' <= c <= '9' || c == '-' || c == '|' || c == '_'
            ==> !is_white(c),
{
}

/// A MAP application context has the arcs of MAP with its own number, in version 3.
pub proof fn law_map_context_arcs(number: u32)
    ensures
        map_context(number).len() == 8,
        map_context(number)[6] == number,
        map_context(number)[7] == 3,
        map_context(number).take(6) == seq![0u32, 4u32, 0u32, 0u32, 1u32, 0u32],
{
    assert(map_context(number).take(6) =~= seq![0u32, 4u32, 0u32, 0u32, 1u32, 0u32]);
}

/// The addresses of a list are written one by one in order, and the first that cannot be
/// written is the reason for a refusal.
pub proof fn law_addresses_are_written_in_order(s: Seq<AddrModel>, n: int, i: int)
    requires
        0 <= i < n <= s.len(),
    ensures
        called_list(s, n) matches Ok(list) ==> list.len() == n && called_octets(s[i]) == Ok::<
            Seq<u8>,
            Refusal,
        >(list[i]),
        called_octets(s[i]) is Err && (forall|j: int|
            0 <= j < i ==> called_octets(#[trigger] s[j]) is Ok) ==> called_list(s, n) is Err
            && called_list(s, n)->Err_0 == called_octets(s[i])->Err_0,
    decreases n,
{
    list_length(s, n - 1);
    if i < n - 1 {
        law_addresses_are_written_in_order(s, n - 1, i);
    } else {
        if forall|j: int| 0 <= j < i ==> called_octets(#[trigger] s[j]) is Ok {
            list_is_written(s, i);
        }
    }
}

proof fn list_length(s: Seq<AddrModel>, n: int)
    requires
        0 <= n,
    ensures
        called_list(s, n) matches Ok(list) ==> list.len() == n,
    decreases n,
{
    if n > 0 {
        list_length(s, n - 1);
    }
}

proof fn list_is_written(s: Seq<AddrModel>, n: int)
    requires
        0 <= n <= s.len(),
        forall|j: int| 0 <= j < n ==> called_octets(#[trigger] s[j]) is Ok,
    ensures
        called_list(s, n) is Ok,
    decreases n,
{
    if n > 0 {
        list_is_written(s, n - 1);
        assert(called_octets(s[n - 1]) is Ok);
    }
}

/// Octets that a script gives for an address are taken as they are.
pub proof fn law_octets_are_taken_as_they_are(b: Seq<u8>)
    ensures
        isdn_octets(AddrModel::Octets(b)) == Ok::<Seq<u8>, Refusal>(b),
        imsi_arg_octets(AddrModel::Octets(b)) == Ok::<Seq<u8>, Refusal>(b),
        called_octets(AddrModel::Octets(b)) == Ok::<Seq<u8>, Refusal>(b),
{
}

/// The kinds of message as a script sees them, and which ids they carry.
pub proof fn law_kinds_of_message(k: TcKind)
    ensures
        k == TcKind::Begin ==> kind_name(k) == "begin"@,
        k == TcKind::Continue ==> kind_name(k) == "continue"@,
        k == TcKind::End ==> kind_name(k) == "end"@,
        k == TcKind::Abort ==> kind_name(k) == "abort"@,
        k == TcKind::Unidirectional ==> kind_name(k) == "unidirectional"@,
        has_otid(k) <==> k == TcKind::Begin || k == TcKind::Continue,
        has_dtid(k) <==> k == TcKind::Continue || k == TcKind::End || k == TcKind::Abort,
        carries_dialogue(k) <==> k == TcKind::Begin || k == TcKind::Continue || k == TcKind::End,
{
}

/// A script sees of a message its kind, the ids that its kind carries, its application
/// context, and its components by a local code.
pub proof fn law_message_is_shown(p: PyDecoded, t: TcModel)
    requires
        p.shows(t),
    ensures
        t.kind == TcKind::Begin || t.kind == TcKind::Continue ==> p.otid@ == t.otid,
        t.kind == TcKind::Continue || t.kind == TcKind::End || t.kind == TcKind::Abort ==> p.dtid@
            == t.dtid,
        t.kind == TcKind::Begin ==> p.kind@ == "begin"@ && p.dtid@.len() == 0,
        t.kind == TcKind::Continue ==> p.kind@ == "continue"@,
        t.kind == TcKind::End ==> p.kind@ == "end"@ && p.otid@.len() == 0,
        t.kind == TcKind::Abort ==> p.kind@ == "abort"@ && p.otid@.len() == 0
            && p.invokes@.len() == 0 && p.result is None && p.error is None,
        t.kind == TcKind::Begin || t.kind == TcKind::Continue || t.kind == TcKind::End ==> {
            let n = t.components.len() as int;
            &&& coded_all(p.invokes@) == local_invokes(t.components, n)
            &&& maybe_coded(p.result) == local_result(t.components, n)
            &&& p.error == local_error(t.components, n)
            &&& t.context matches ContextModel::Request(a) ==> arcs(p.app_context) == Some(a)
            &&& t.context matches ContextModel::Response(a) ==> arcs(p.app_context) == Some(a)
            &&& t.context is Absent ==> p.app_context is None
        },
{
    assert(coded_all(p.invokes@).len() == p.invokes@.len());
    if t.kind == TcKind::Abort {
        assert(local_invokes(Seq::<ComponentModel>::empty(), 0).len() == 0);
    }
}

/// A script sees the operation that opened its dialogue as it came.
pub proof fn law_operation_is_shown(p: PyIncomingOp, op: OpModel)
    requires
        p.shows(op),
    ensures
        p.operation_code == op.operation_code,
        p.invoke_id == op.invoke_id,
        octets(p.argument) == op.argument,
        op.calling_gt is None <==> p.calling_gt is None,
        p.calling_gt matches Some(s) ==> op.calling_gt == Some(s@),
        op.called_gt is None <==> p.called_gt is None,
        p.called_gt matches Some(s) ==> op.called_gt == Some(s@),
{
}

/// A command that a script gives is recorded after those that it gave before.
pub proof fn law_command_is_recorded(after: &PyDialogue, before: &PyDialogue, c: Command)
    requires
        after.with(before, c),
    ensures
        after.recorded().len() == before.recorded().len() + 1,
        after.recorded().last() == c,
        after.recorded().drop_last() == before.recorded(),
        after.our_tid() == before.our_tid(),
        after.peer_tid() == before.peer_tid(),
{
    assert(after.recorded().drop_last() =~= before.recorded());
}

// ── Payloads and arguments ──────────────────────────────────────────────────

/// A payload carries the transaction's octets in a connectionless message of class 0
/// between the two parties, without a hop counter. A context that cannot be written, and
/// what the codecs refuse, is refused.
pub proof fn law_payload_carries_transaction(
    m: OutgoingModel,
    called: AddressModel,
    calling: AddressModel,
    u: MessageModel,
)
    requires
        u.form == SccpForm::Short,
        u.head == (SccpHead::Data { protocol_class: 0, message_handling: 0 }),
        u.hop_counter is None,
        u.called_party == called,
        u.calling_party == calling,
        transaction_octets(m) matches Ok(data) ==> u.data == data,
        u.optional_part.len() == 0,
    ensures
        transaction_octets(m) is Ok && sccp_encoded(u) is Ok ==> payload_of(m, called, calling)
            == Ok::<Seq<u8>, Refusal>(sccp_encoded(u)->Ok_0),
        transaction_octets(m) is Ok && sccp_encoded(u) is Err ==> payload_of(m, called, calling)
            == Err::<Seq<u8>, Refusal>(Refusal::Codec(sccp_encoded(u)->Err_0)),
        transaction_octets(m) matches Err(UnwrittenModel::Context) ==> payload_of(
            m,
            called,
            calling,
        ) == Err::<Seq<u8>, Refusal>(Refusal::NotEncoded),
        transaction_octets(m) matches Err(UnwrittenModel::Codec(t)) ==> payload_of(
            m,
            called,
            calling,
        ) == Err::<Seq<u8>, Refusal>(Refusal::Codec(t)),
{
    assert(u.optional_part =~= Seq::empty());
}

/// What a builder prepares is the operation with the octets that the codec wrote; what the
/// codec refuses is refused in its words.
pub proof fn law_prepared_holds_octets(op: i64, r: Result<Seq<u8>, Seq<char>>)
    ensures
        r matches Ok(b) ==> (prepared(op, r) matches Ok(p) && p.op == op && p.octets == Some(b)),
        r matches Err(t) ==> prepared(op, r) == Err::<Prepared, Refusal>(Refusal::Codec(t)),
{
}

/// An initial detection point is read from the argument by the codec of its protocol, and
/// none is read where there is no argument.
pub proof fn law_detection_is_read_from_argument(o: PyIncomingOp)
    ensures
        o.argument is None ==> o.cap_detection() is None && o.inap_detection() is None
            && o.forward() is None,
        o.argument matches Some(a) ==> o.cap_detection() == cap_initial_dp(a@)
            && o.inap_detection() == inap_initial_dp(a@),
{
}

} // verus!
