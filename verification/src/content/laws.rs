//! What content routing decides, stated on the configured rules and tables.
use crate::config::{
    AddressTable, ContentAction, ContentMatch, ContentRouting, ImsiTable, OneOrMany,
};
use crate::content::engine::{
    addresses_named, first_rule, imsis_named, known_operations, operations_of, rule_holds,
    with_member, Action, CompiledRule, ContentEngine, Tables,
};
use crate::content::operation::{code_of, kebab, operation_named, Operation};
use crate::content::operation::{law_code_round_trip, law_name_round_trip};
use crate::content::forward_sm::mo_forward_read;
use crate::content::view::{
    auth_info_imsi, cancel_location_imsi, first_local_invoke, map_view, routing_info_msisdn,
    subscriber_info_imsi, tbcd, update_location_imsi, MapView, ViewModel,
};
use crate::sccp::message::MessageModel;
use crate::text::{begins_with, digit};
use crate::transaction::{ComponentModel, TcKind, TcModel};
use vstd::prelude::*;

verus! {

/// The list that a table of this name holds has a prefix of the text.
pub open spec fn has_prefix_of(tables: Tables, name: Seq<char>, text: Seq<char>) -> bool {
    &&& tables.contains_key(name)
    &&& exists|i: int|
        0 <= i < tables[name]@.len() && (#[trigger] tables[name]@[i])@.is_prefix_of(text)
}

/// The list that a table of this name holds has the text itself.
pub open spec fn has_text(tables: Tables, name: Seq<char>, text: Seq<char>) -> bool {
    &&& tables.contains_key(name)
    &&& exists|i: int| 0 <= i < tables[name]@.len() && (#[trigger] tables[name]@[i])@ == text
}

/// The operation of a message is one of those listed, where any are.
pub open spec fn operation_fits(ops: Seq<Operation>, v: MapView) -> bool {
    ops.len() == 0 || (v.operation is Some && exists|i: int|
        0 <= i < ops.len() && #[trigger] ops[i] == v.operation->Some_0)
}

/// A rule's operations, its IMSI table, its IMSI prefix, its called-party table and its
/// calling-party table each hold of a view, where the rule has them.
pub open spec fn fits_view(c: CompiledRule, imsis: Tables, addresses: Tables, v: MapView) -> bool {
    &&& operation_fits(c.operations@, v)
    &&& c.imsi_in is Some ==> v.imsi is Some && has_prefix_of(
        imsis,
        c.imsi_in->Some_0@,
        v.imsi->Some_0@,
    )
    &&& c.imsi_prefix is Some ==> v.imsi is Some && c.imsi_prefix->Some_0@.is_prefix_of(
        v.imsi->Some_0@,
    )
    &&& c.cdpa_gt_in is Some ==> v.cdpa_gt is Some && has_text(
        addresses,
        c.cdpa_gt_in->Some_0@,
        v.cdpa_gt->Some_0@,
    )
    &&& c.cgpa_gt_in is Some ==> v.cgpa_gt is Some && has_text(
        addresses,
        c.cgpa_gt_in->Some_0@,
        v.cgpa_gt->Some_0@,
    )
}

proof fn begins_is_prefix(d: Seq<char>, p: Seq<char>)
    ensures
        begins_with(d, p) == p.is_prefix_of(d),
{
    if p.len() <= d.len() {
        assert(d.subrange(0, p.len() as int) =~= p <==> p =~= d.subrange(0, p.len() as int));
    }
}

/// A rule holds of a view exactly if every criterion that it has holds: none is left out
/// because another one is there.
pub proof fn law_every_criterion_counts(
    c: CompiledRule,
    imsis: Tables,
    addresses: Tables,
    v: MapView,
)
    ensures
        rule_holds(c, imsis, addresses, v@) <==> fits_view(c, imsis, addresses, v),
{
    assert forall|p: Seq<char>, d: Seq<char>|
        #![trigger begins_with(d, p)]
        #![trigger p.is_prefix_of(d)]
        begins_with(d, p) == p.is_prefix_of(d) by {
        begins_is_prefix(d, p);
    }
    if v.operation is Some {
        let op = v.operation->Some_0;
        assert(c.operations@.contains(op) <==> exists|i: int|
            0 <= i < c.operations@.len() && #[trigger] c.operations@[i] == op);
    }
    if c.imsi_in is Some && v.imsi is Some {
        let t = c.imsi_in->Some_0@;
        let text = v.imsi->Some_0@;
        if has_prefix_of(imsis, t, text) {
            let i = choose|i: int|
                0 <= i < imsis[t]@.len() && (#[trigger] imsis[t]@[i])@.is_prefix_of(text);
            assert(begins_with(text, imsis[t]@[i]@));
        }
        if rule_holds(c, imsis, addresses, v@) {
            let i = choose|i: int|
                0 <= i < imsis[t]@.len() && begins_with(text, #[trigger] imsis[t]@[i]@);
            assert(imsis[t]@[i]@.is_prefix_of(text));
        }
    }
    if c.cdpa_gt_in is Some && v.cdpa_gt is Some {
        let t = c.cdpa_gt_in->Some_0@;
        let text = v.cdpa_gt->Some_0@;
        if has_text(addresses, t, text) {
            let i = choose|i: int|
                0 <= i < addresses[t]@.len() && (#[trigger] addresses[t]@[i])@ == text;
            assert(addresses[t]@[i]@ == text);
        }
        if rule_holds(c, imsis, addresses, v@) {
            let i = choose|i: int|
                0 <= i < addresses[t]@.len() && #[trigger] addresses[t]@[i]@ == text;
            assert(addresses[t]@[i]@ == text);
        }
    }
    if c.cgpa_gt_in is Some && v.cgpa_gt is Some {
        let t = c.cgpa_gt_in->Some_0@;
        let text = v.cgpa_gt->Some_0@;
        if has_text(addresses, t, text) {
            let i = choose|i: int|
                0 <= i < addresses[t]@.len() && (#[trigger] addresses[t]@[i])@ == text;
            assert(addresses[t]@[i]@ == text);
        }
        if rule_holds(c, imsis, addresses, v@) {
            let i = choose|i: int|
                0 <= i < addresses[t]@.len() && #[trigger] addresses[t]@[i]@ == text;
            assert(addresses[t]@[i]@ == text);
        }
    }
}

proof fn first_rule_at(e: ContentEngine, v: ViewModel, from: int, i: int)
    requires
        0 <= from <= i < e.rule_list().len(),
        rule_holds(e.rule_list()[i], e.imsis(), e.addresses(), v),
        forall|j: int|
            from <= j < i ==> !rule_holds(#[trigger] e.rule_list()[j], e.imsis(), e.addresses(), v),
    ensures
        first_rule(e.rule_list(), e.imsis(), e.addresses(), v, from) == Some(e.rule_list()[i]),
    decreases i - from,
{
    if from < i {
        first_rule_at(e, v, from + 1, i);
    }
}

proof fn no_rule(e: ContentEngine, v: ViewModel, from: int)
    requires
        0 <= from,
        forall|j: int|
            from <= j < e.rule_list().len() ==> !rule_holds(
                #[trigger] e.rule_list()[j],
                e.imsis(),
                e.addresses(),
                v,
            ),
    ensures
        first_rule(e.rule_list(), e.imsis(), e.addresses(), v, from) is None,
    decreases e.rule_list().len() - from,
{
    if from < e.rule_list().len() {
        no_rule(e, v, from + 1);
    }
}

/// The first rule that fits a view decides, whatever rules follow.
pub proof fn law_first_fitting_rule_decides(e: ContentEngine, v: MapView, i: int)
    requires
        0 <= i < e.rule_list().len(),
        fits_view(e.rule_list()[i], e.imsis(), e.addresses(), v),
        forall|j: int|
            0 <= j < i ==> !fits_view(#[trigger] e.rule_list()[j], e.imsis(), e.addresses(), v),
    ensures
        e.deciding_rule(v@) == Some(e.rule_list()[i]),
{
    assert forall|j: int| 0 <= j <= i implies rule_holds(
        #[trigger] e.rule_list()[j],
        e.imsis(),
        e.addresses(),
        v@,
    ) == fits_view(e.rule_list()[j], e.imsis(), e.addresses(), v) by {
        law_every_criterion_counts(e.rule_list()[j], e.imsis(), e.addresses(), v);
    }
    first_rule_at(e, v@, 0, i);
}

/// No rule decides about a view that none fits.
pub proof fn law_no_fitting_rule_no_decision(e: ContentEngine, v: MapView)
    requires
        forall|j: int|
            0 <= j < e.rule_list().len() ==> !fits_view(
                #[trigger] e.rule_list()[j],
                e.imsis(),
                e.addresses(),
                v,
            ),
    ensures
        e.deciding_rule(v@) is None,
{
    assert forall|j: int| 0 <= j < e.rule_list().len() implies !rule_holds(
        #[trigger] e.rule_list()[j],
        e.imsis(),
        e.addresses(),
        v@,
    ) by {
        law_every_criterion_counts(e.rule_list()[j], e.imsis(), e.addresses(), v);
        assert(!fits_view(e.rule_list()[j], e.imsis(), e.addresses(), v));
    }
    no_rule(e, v@, 0);
}

// ── From the configuration ──────────────────────────────────────────────────

/// The names that a rule lists for its operation.
pub open spec fn listed(o: OneOrMany, name: Seq<char>) -> bool {
    match o {
        OneOrMany::One(s) => s@ == name,
        OneOrMany::Many(v) => exists|i: int| 0 <= i < v@.len() && (#[trigger] v@[i])@ == name,
    }
}

/// The last IMSI table of this name has a prefix of the text.
pub open spec fn imsi_listed(ts: Seq<ImsiTable>, name: Seq<char>, text: Seq<char>) -> bool {
    exists|j: int, k: int|
        0 <= j < ts.len() && ts[j].name@ == name && 0 <= k < ts[j].prefixes@.len()
            && (#[trigger] ts[j].prefixes@[k])@.is_prefix_of(text) && forall|x: int|
            j < x < ts.len() ==> (#[trigger] ts[x]).name@ != name
}

/// The last address table of this name has the text itself.
pub open spec fn address_listed(ts: Seq<AddressTable>, name: Seq<char>, text: Seq<char>) -> bool {
    exists|j: int, k: int|
        0 <= j < ts.len() && ts[j].name@ == name && 0 <= k < ts[j].addrs@.len()
            && (#[trigger] ts[j].addrs@[k])@ == text && forall|x: int|
            j < x < ts.len() ==> (#[trigger] ts[x]).name@ != name
}

/// A configured rule fits a view: the message's operation is among those that the rule
/// names, where it names any that is known; its IMSI begins with a prefix of the table
/// and with the prefix that the rule gives; its called and calling digits are in the
/// tables.
pub open spec fn configured_fits(cr: ContentRouting, m: ContentMatch, v: MapView) -> bool {
    &&& m.operation is Some && (exists|op: Operation|
        listed(m.operation->Some_0, #[trigger] kebab(op))) ==> v.operation is Some && listed(
        m.operation->Some_0,
        kebab(v.operation->Some_0),
    )
    &&& m.imsi_in is Some ==> v.imsi is Some && imsi_listed(
        cr.imsi_tables@,
        m.imsi_in->Some_0@,
        v.imsi->Some_0@,
    )
    &&& m.imsi_prefix is Some ==> v.imsi is Some && m.imsi_prefix->Some_0@.is_prefix_of(
        v.imsi->Some_0@,
    )
    &&& m.cdpa_gt_in is Some ==> v.cdpa_gt is Some && address_listed(
        cr.address_tables@,
        m.cdpa_gt_in->Some_0@,
        v.cdpa_gt->Some_0@,
    )
    &&& m.cgpa_gt_in is Some ==> v.cgpa_gt is Some && address_listed(
        cr.address_tables@,
        m.cgpa_gt_in->Some_0@,
        v.cgpa_gt->Some_0@,
    )
}

proof fn known_operation_is_named(names: Seq<Seq<char>>, n: int, op: Operation)
    requires
        0 <= n <= names.len(),
    ensures
        known_operations(names, n).contains(op) <==> exists|i: int|
            0 <= i < n && #[trigger] names[i] == kebab(op),
    decreases n,
{
    if n > 0 {
        known_operation_is_named(names, n - 1, op);
        let before = known_operations(names, n - 1);
        let all = known_operations(names, n);
        let last = names[n - 1];
        law_name_round_trip(op);
        if before.contains(op) {
            let k = choose|k: int| 0 <= k < before.len() && before[k] == op;
            assert(all[k] == op);
            let i = choose|i: int| 0 <= i < n - 1 && #[trigger] names[i] == kebab(op);
            assert(names[i] == kebab(op));
        }
        match operation_named(last) {
            Some(x) => {
                let c = choose|c: Operation| kebab(c) == last;
                assert(kebab(x) == last);
                assert(all == before.push(x));
                assert(all[before.len() as int] == x);
                if all.contains(op) && !before.contains(op) {
                    let k = choose|k: int| 0 <= k < all.len() && all[k] == op;
                    if k < before.len() {
                        assert(before[k] == op);
                    }
                    assert(names[n - 1] == kebab(op));
                }
            },
            None => {},
        }
        if exists|i: int| 0 <= i < n && #[trigger] names[i] == kebab(op) {
            let i = choose|i: int| 0 <= i < n && #[trigger] names[i] == kebab(op);
            if i < n - 1 {
                assert(before.contains(op));
            } else {
                assert(operation_named(last) == Some(op));
            }
        }
    }
}

proof fn listed_is_value(o: OneOrMany, name: Seq<char>)
    ensures
        listed(o, name) <==> exists|i: int| 0 <= i < o.values().len() && #[trigger] o.values()[i] == name,
{
    match o {
        OneOrMany::One(s) => {
            assert(o.values()[0] == s@);
        },
        OneOrMany::Many(v) => {
            if listed(o, name) {
                let i = choose|i: int| 0 <= i < v@.len() && (#[trigger] v@[i])@ == name;
                assert(o.values()[i] == name);
            }
            if exists|i: int| 0 <= i < o.values().len() && #[trigger] o.values()[i] == name {
                let i = choose|i: int| 0 <= i < o.values().len() && #[trigger] o.values()[i] == name;
                assert(v@[i]@ == name);
            }
        },
    }
}

proof fn operations_are_listed(m: ContentMatch, op: Operation)
    ensures
        operations_of(m).contains(op) <==> m.operation is Some && listed(
            m.operation->Some_0,
            kebab(op),
        ),
{
    if m.operation is Some {
        let o = m.operation->Some_0;
        known_operation_is_named(o.values(), o.values().len() as int, op);
        listed_is_value(o, kebab(op));
    }
}

proof fn imsi_table_is_last(ts: Seq<ImsiTable>, name: Seq<char>)
    ensures
        imsis_named(ts, name) is Some <==> exists|j: int|
            0 <= j < ts.len() && (#[trigger] ts[j]).name@ == name,
        imsis_named(ts, name) is Some ==> exists|j: int|
            0 <= j < ts.len() && (#[trigger] ts[j]).name@ == name && ts[j].prefixes
                == imsis_named(ts, name)->Some_0 && forall|x: int|
                j < x < ts.len() ==> (#[trigger] ts[x]).name@ != name,
    decreases ts.len(),
{
    if ts.len() > 0 {
        let n = ts.len() - 1;
        let head = ts.drop_last();
        imsi_table_is_last(head, name);
        if ts.last().name@ == name {
            assert(ts[n].name@ == name && ts[n].prefixes == imsis_named(ts, name)->Some_0);
        } else {
            if imsis_named(ts, name) is Some {
                let j = choose|j: int|
                    0 <= j < head.len() && (#[trigger] head[j]).name@ == name && head[j].prefixes
                        == imsis_named(head, name)->Some_0 && forall|x: int|
                        j < x < head.len() ==> (#[trigger] head[x]).name@ != name;
                assert forall|x: int| j < x < ts.len() implies (#[trigger] ts[x]).name@ != name by {
                    if x < n {
                        assert(head[x].name@ != name);
                    }
                }
                assert(ts[j].name@ == name && ts[j].prefixes == imsis_named(ts, name)->Some_0);
            }
            if exists|j: int| 0 <= j < ts.len() && (#[trigger] ts[j]).name@ == name {
                let j = choose|j: int| 0 <= j < ts.len() && (#[trigger] ts[j]).name@ == name;
                assert(head[j].name@ == name);
            }
        }
    }
}

proof fn address_table_is_last(ts: Seq<AddressTable>, name: Seq<char>)
    ensures
        addresses_named(ts, name) is Some <==> exists|j: int|
            0 <= j < ts.len() && (#[trigger] ts[j]).name@ == name,
        addresses_named(ts, name) is Some ==> exists|j: int|
            0 <= j < ts.len() && (#[trigger] ts[j]).name@ == name && ts[j].addrs
                == addresses_named(ts, name)->Some_0 && forall|x: int|
                j < x < ts.len() ==> (#[trigger] ts[x]).name@ != name,
    decreases ts.len(),
{
    if ts.len() > 0 {
        let n = ts.len() - 1;
        let head = ts.drop_last();
        address_table_is_last(head, name);
        if ts.last().name@ == name {
            assert(ts[n].name@ == name && ts[n].addrs == addresses_named(ts, name)->Some_0);
        } else {
            if addresses_named(ts, name) is Some {
                let j = choose|j: int|
                    0 <= j < head.len() && (#[trigger] head[j]).name@ == name && head[j].addrs
                        == addresses_named(head, name)->Some_0 && forall|x: int|
                        j < x < head.len() ==> (#[trigger] head[x]).name@ != name;
                assert forall|x: int| j < x < ts.len() implies (#[trigger] ts[x]).name@ != name by {
                    if x < n {
                        assert(head[x].name@ != name);
                    }
                }
                assert(ts[j].name@ == name && ts[j].addrs == addresses_named(ts, name)->Some_0);
            }
            if exists|j: int| 0 <= j < ts.len() && (#[trigger] ts[j]).name@ == name {
                let j = choose|j: int| 0 <= j < ts.len() && (#[trigger] ts[j]).name@ == name;
                assert(head[j].name@ == name);
            }
        }
    }
}

proof fn compiled_imsis(e: ContentEngine, cr: ContentRouting, name: Seq<char>, text: Seq<char>)
    requires
        e.compiled_from(cr),
    ensures
        has_prefix_of(e.imsis(), name, text) <==> imsi_listed(cr.imsi_tables@, name, text),
{
    let ts = cr.imsi_tables@;
    imsi_table_is_last(ts, name);
    assert(e.imsis().contains_key(name) <==> imsis_named(ts, name) is Some);
    if e.imsis().contains_key(name) {
        let j = choose|j: int|
            0 <= j < ts.len() && (#[trigger] ts[j]).name@ == name && ts[j].prefixes
                == imsis_named(ts, name)->Some_0 && forall|x: int|
                j < x < ts.len() ==> (#[trigger] ts[x]).name@ != name;
        let list = e.imsis()[name]@;
        assert(list == ts[j].prefixes@);
        if has_prefix_of(e.imsis(), name, text) {
            let i = choose|i: int| 0 <= i < list.len() && (#[trigger] list[i])@.is_prefix_of(text);
            assert(ts[j].prefixes@[i]@.is_prefix_of(text));
        }
        if imsi_listed(ts, name, text) {
            let (b, k) = choose|b: int, k: int|
                0 <= b < ts.len() && ts[b].name@ == name && 0 <= k < ts[b].prefixes@.len()
                    && (#[trigger] ts[b].prefixes@[k])@.is_prefix_of(text) && forall|x: int|
                    b < x < ts.len() ==> (#[trigger] ts[x]).name@ != name;
            assert(b == j);
            assert(list[k]@.is_prefix_of(text));
        }
    }
}

proof fn compiled_addresses(e: ContentEngine, cr: ContentRouting, name: Seq<char>, text: Seq<char>)
    requires
        e.compiled_from(cr),
    ensures
        has_text(e.addresses(), name, text) <==> address_listed(cr.address_tables@, name, text),
{
    let ts = cr.address_tables@;
    address_table_is_last(ts, name);
    assert(e.addresses().contains_key(name) <==> addresses_named(ts, name) is Some);
    if e.addresses().contains_key(name) {
        let j = choose|j: int|
            0 <= j < ts.len() && (#[trigger] ts[j]).name@ == name && ts[j].addrs
                == addresses_named(ts, name)->Some_0 && forall|x: int|
                j < x < ts.len() ==> (#[trigger] ts[x]).name@ != name;
        let list = e.addresses()[name]@;
        assert(list == ts[j].addrs@);
        if has_text(e.addresses(), name, text) {
            let i = choose|i: int| 0 <= i < list.len() && (#[trigger] list[i])@ == text;
            assert(ts[j].addrs@[i]@ == text);
        }
        if address_listed(ts, name, text) {
            let (b, k) = choose|b: int, k: int|
                0 <= b < ts.len() && ts[b].name@ == name && 0 <= k < ts[b].addrs@.len()
                    && (#[trigger] ts[b].addrs@[k])@ == text && forall|x: int|
                    b < x < ts.len() ==> (#[trigger] ts[x]).name@ != name;
            assert(b == j);
            assert(list[k]@ == text);
        }
    }
}

proof fn compiled_fits(e: ContentEngine, cr: ContentRouting, i: int, v: MapView)
    requires
        e.compiled_from(cr),
        0 <= i < cr.rules@.len(),
    ensures
        fits_view(e.rule_list()[i], e.imsis(), e.addresses(), v) <==> configured_fits(
            cr,
            cr.rules@[i].match_,
            v,
        ),
{
    let c = e.rule_list()[i];
    let m = cr.rules@[i].match_;
    assert(c.compiled_from(cr.rules@[i]));
    let ops = c.operations@;
    assert(ops == operations_of(m));
    assert forall|op: Operation| #[trigger] ops.contains(op) <==> m.operation is Some && listed(
        m.operation->Some_0,
        kebab(op),
    ) by {
        operations_are_listed(m, op);
    }
    if ops.len() > 0 {
        assert(ops.contains(ops[0]));
        assert(listed(m.operation->Some_0, kebab(ops[0])));
        if v.operation is Some {
            let op = v.operation->Some_0;
            assert(ops.contains(op) <==> exists|k: int| 0 <= k < ops.len() && #[trigger] ops[k] == op);
        }
    } else {
        assert forall|op: Operation| m.operation is Some implies !listed(
            m.operation->Some_0,
            #[trigger] kebab(op),
        ) by {
            assert(!ops.contains(op));
        }
    }
    if m.imsi_in is Some && v.imsi is Some {
        compiled_imsis(e, cr, m.imsi_in->Some_0@, v.imsi->Some_0@);
    }
    if m.cdpa_gt_in is Some && v.cdpa_gt is Some {
        compiled_addresses(e, cr, m.cdpa_gt_in->Some_0@, v.cdpa_gt->Some_0@);
    }
    if m.cgpa_gt_in is Some && v.cgpa_gt is Some {
        compiled_addresses(e, cr, m.cgpa_gt_in->Some_0@, v.cgpa_gt->Some_0@);
    }
}

/// A rule's action says what to do: a screen drops the message, else a script hook takes
/// it, else it goes to the route, with the called digits rewritten if the rule says so.
pub open spec fn does(a: ContentAction, done: Action) -> bool {
    &&& a.screen == Some(true) ==> done is Screen
    &&& a.screen != Some(true) && a.python is Some ==> done is Python && Some(done->hook)
        == a.python
    &&& a.screen != Some(true) && a.python is None ==> {
        &&& done is Route
        &&& done->rewrite_cdpa_gt == a.rewrite_cdpa_gt
        &&& a.route is Some ==> Some(done->target) == a.route
        &&& a.route is None ==> done->target.dpc is None && done->target.ssn is None
            && done->target.group is None && done->target.local is None && done->target.tenant
            is None
    }
}

/// The first configured rule that fits a view decides: its name is the one reported and
/// its action is the one done.
pub proof fn law_first_configured_rule_decides(
    e: ContentEngine,
    cr: ContentRouting,
    v: MapView,
    i: int,
)
    requires
        e.compiled_from(cr),
        0 <= i < cr.rules@.len(),
        configured_fits(cr, cr.rules@[i].match_, v),
        forall|j: int| 0 <= j < i ==> !configured_fits(cr, (#[trigger] cr.rules@[j]).match_, v),
    ensures
        e.deciding_rule(v@) is Some,
        e.deciding_rule(v@)->Some_0.name == cr.rules@[i].name,
        does(cr.rules@[i].action, e.deciding_rule(v@)->Some_0.action),
{
    assert forall|j: int| 0 <= j <= i implies fits_view(
        #[trigger] e.rule_list()[j],
        e.imsis(),
        e.addresses(),
        v,
    ) == configured_fits(cr, cr.rules@[j].match_, v) by {
        compiled_fits(e, cr, j, v);
    }
    law_first_fitting_rule_decides(e, v, i);
    assert(e.rule_list()[i].compiled_from(cr.rules@[i]));
}

/// A view that no configured rule fits is left to the next stage of routing.
pub proof fn law_no_configured_rule_no_decision(e: ContentEngine, cr: ContentRouting, v: MapView)
    requires
        e.compiled_from(cr),
        forall|j: int|
            0 <= j < cr.rules@.len() ==> !configured_fits(cr, (#[trigger] cr.rules@[j]).match_, v),
    ensures
        e.deciding_rule(v@) is None,
{
    assert forall|j: int| 0 <= j < e.rule_list().len() implies !fits_view(
        #[trigger] e.rule_list()[j],
        e.imsis(),
        e.addresses(),
        v,
    ) by {
        compiled_fits(e, cr, j, v);
        assert(!configured_fits(cr, cr.rules@[j].match_, v));
    }
    law_no_fitting_rule_no_decision(e, v);
}

/// A table that had an entry added holds what it held and that entry, and nothing else.
pub proof fn law_table_add_adds_one(v: Seq<Seq<char>>, s: Seq<char>, x: Seq<char>)
    ensures
        with_member(v, s).contains(x) <==> v.contains(x) || x == s,
        v.is_prefix_of(with_member(v, s)),
{
    let w = with_member(v, s);
    if v.contains(x) {
        let i = choose|i: int| 0 <= i < v.len() && v[i] == x;
        assert(w[i] == x);
    }
    if !v.contains(s) {
        assert(w[v.len() as int] == s);
    }
    if w.contains(x) && x != s {
        let i = choose|i: int| 0 <= i < w.len() && w[i] == x;
        assert(v[i] == x);
    }
    assert(v.is_prefix_of(w));
}

// ── What a message says ─────────────────────────────────────────────────────

/// A component is an invoke of an operation that is given by its local code.
pub open spec fn is_local_invoke(c: ComponentModel) -> bool {
    c is Invoke && c->Invoke_operation is Some
}

proof fn first_invoke_at(cs: Seq<ComponentModel>, from: int, i: int)
    requires
        0 <= from <= i < cs.len(),
        is_local_invoke(cs[i]),
        forall|j: int| from <= j < i ==> !is_local_invoke(#[trigger] cs[j]),
    ensures
        first_local_invoke(cs, from) == Some(
            (cs[i]->Invoke_operation->Some_0, cs[i]->Invoke_parameter),
        ),
    decreases i - from,
{
    if from < i {
        assert(!is_local_invoke(cs[from]));
        first_invoke_at(cs, from + 1, i);
    }
}

proof fn no_invoke(cs: Seq<ComponentModel>, from: int)
    requires
        0 <= from,
        forall|j: int| from <= j < cs.len() ==> !is_local_invoke(#[trigger] cs[j]),
    ensures
        first_local_invoke(cs, from) is None,
    decreases cs.len() - from,
{
    if from < cs.len() {
        assert(!is_local_invoke(cs[from]));
        no_invoke(cs, from + 1);
    }
}

/// The subscriber that an argument names: by IMSI in the operations that carry one, by
/// MSISDN in a request for routing information, else not at all.
pub open spec fn names_subscriber(op: Operation, arg: Seq<u8>, v: ViewModel) -> bool {
    &&& match op {
        Operation::UpdateLocation => reads_imsi(update_location_imsi(arg), v.imsi),
        Operation::CancelLocation => reads_imsi(cancel_location_imsi(arg), v.imsi),
        Operation::SendAuthInfo => reads_imsi(auth_info_imsi(arg), v.imsi),
        Operation::ProvideSubscriberInfo => reads_imsi(subscriber_info_imsi(arg), v.imsi),
        Operation::MoForwardSm => match mo_forward_read(arg) {
            Some(f) => reads_imsi(f.imsi, v.imsi),
            None => v.imsi is None,
        },
        _ => v.imsi is None,
    }
    &&& match op {
        Operation::SriSm => match routing_info_msisdn(arg) {
            Some(b) => v.msisdn is Some && (b.len() == 0 ==> v.msisdn->Some_0.len() == 0) && (
            b.len() > 0 ==> v.msisdn->Some_0 == tbcd(b.skip(1))),
            None => v.msisdn is None,
        },
        _ => v.msisdn is None,
    }
}

/// An IMSI reads as the digits of its octets.
pub open spec fn reads_imsi(octets: Option<Seq<u8>>, imsi: Option<Seq<char>>) -> bool {
    match octets {
        Some(b) => imsi == Some(tbcd(b)),
        None => imsi is None,
    }
}

/// A message that begins or continues a transaction is seen by its first invoke with a
/// local operation code: that operation, the digits of both parties, and the subscriber
/// that the argument names. Results and errors before it do not count, nor does anything
/// after it.
pub proof fn law_view_is_of_first_invoke(m: MessageModel, t: TcModel, i: int, op: Operation)
    requires
        t.kind == TcKind::Begin || t.kind == TcKind::Continue,
        0 <= i < t.components.len(),
        t.components[i] is Invoke,
        t.components[i]->Invoke_operation == Some(code_of(op)),
        forall|j: int| 0 <= j < i ==> !is_local_invoke(#[trigger] t.components[j]),
    ensures
        map_view(m, Some(t)) is Some,
        map_view(m, Some(t))->Some_0.operation == Some(op),
        map_view(m, Some(t))->Some_0.cgpa_gt == m.calling_party.global_title.digits(),
        map_view(m, Some(t))->Some_0.cdpa_gt == m.called_party.global_title.digits(),
        t.components[i]->Invoke_parameter is None ==> map_view(m, Some(t))->Some_0.imsi is None
            && map_view(m, Some(t))->Some_0.msisdn is None,
        t.components[i]->Invoke_parameter matches Some(a) ==> names_subscriber(
            op,
            a,
            map_view(m, Some(t))->Some_0,
        ),
{
    first_invoke_at(t.components, 0, i);
    law_code_round_trip(op);
    if t.components[i]->Invoke_parameter is Some {
        let a = t.components[i]->Invoke_parameter->Some_0;
        if op == Operation::SriSm && routing_info_msisdn(a) is Some {
            let b = routing_info_msisdn(a)->Some_0;
            if b.len() > 0 {
                assert(b.drop_first() =~= b.skip(1));
            }
        }
    }
}

/// There is no view of a message without a transaction, of one that ends or aborts its
/// transaction, of one without an invoke by a local code, nor of one whose first such
/// invoke has a code that is not known.
pub proof fn law_view_needs_a_known_invoke(m: MessageModel, t: TcModel, i: int)
    ensures
        map_view(m, None) is None,
        t.kind != TcKind::Begin && t.kind != TcKind::Continue ==> map_view(m, Some(t)) is None,
        (forall|j: int| 0 <= j < t.components.len() ==> !is_local_invoke(#[trigger] t.components[j]))
            ==> map_view(m, Some(t)) is None,
        0 <= i < t.components.len() && is_local_invoke(t.components[i]) && (forall|op: Operation|
            #[trigger] code_of(op) != t.components[i]->Invoke_operation->Some_0) && (forall|j: int|
            0 <= j < i ==> !is_local_invoke(#[trigger] t.components[j])) ==> map_view(m, Some(t))
            is None,
{
    if forall|j: int| 0 <= j < t.components.len() ==> !is_local_invoke(#[trigger] t.components[j]) {
        no_invoke(t.components, 0);
    }
    if 0 <= i < t.components.len() && is_local_invoke(t.components[i]) && (forall|j: int|
        0 <= j < i ==> !is_local_invoke(#[trigger] t.components[j])) {
        first_invoke_at(t.components, 0, i);
    }
}

/// The operations and their codes, one for one.
pub proof fn law_operation_codes(op: Operation)
    ensures
        op == Operation::InitialDp <==> code_of(op) == 0,
        op == Operation::UpdateLocation <==> code_of(op) == 2,
        op == Operation::CancelLocation <==> code_of(op) == 3,
        op == Operation::InsertSubscriberData <==> code_of(op) == 7,
        op == Operation::Connect <==> code_of(op) == 20,
        op == Operation::MtForwardSm <==> code_of(op) == 44,
        op == Operation::SriSm <==> code_of(op) == 45,
        op == Operation::MoForwardSm <==> code_of(op) == 46,
        op == Operation::SendAuthInfo <==> code_of(op) == 56,
        op == Operation::ProvideSubscriberInfo <==> code_of(op) == 70,
{
}

/// Octets of packed digits, low half first, read as those digits: two for each octet.
/// An octet whose upper half is no digit ends them after its lower half, and one whose
/// lower half is no digit ends them before.
pub proof fn law_packed_digits_read(bytes: Seq<u8>, n: int)
    requires
        0 <= n <= bytes.len(),
        forall|k: int|
            0 <= k < n ==> (#[trigger] bytes[k]) as int % 16 <= 9 && bytes[k] as int / 16 <= 9,
    ensures
        n == bytes.len() ==> tbcd(bytes).len() == 2 * n,
        n < bytes.len() && bytes[n] as int % 16 > 9 ==> tbcd(bytes).len() == 2 * n,
        n < bytes.len() && bytes[n] as int % 16 <= 9 && bytes[n] as int / 16 > 9 ==> tbcd(bytes).len()
            == 2 * n + 1 && tbcd(bytes)[2 * n] as int == '0' as int + bytes[n] as int % 16,
        2 * n <= tbcd(bytes).len(),
        forall|k: int|
            0 <= k < n ==> tbcd(bytes)[2 * k] as int == '0' as int + (#[trigger] bytes[k]) as int
                % 16 && tbcd(bytes)[2 * k + 1] as int == '0' as int + bytes[k] as int / 16,
    decreases bytes.len(),
{
    if n > 0 {
        let rest = bytes.drop_first();
        assert forall|k: int| 0 <= k < n - 1 implies (#[trigger] rest[k]) as int % 16 <= 9
            && rest[k] as int / 16 <= 9 by {
            assert(rest[k] == bytes[k + 1]);
        }
        law_packed_digits_read(rest, n - 1);
        let all = tbcd(bytes);
        assert(bytes[0] as int % 16 <= 9 && bytes[0] as int / 16 <= 9);
        assert(all == seq![digit(bytes[0] as nat % 16), digit(bytes[0] as nat / 16)] + tbcd(rest));
        assert forall|k: int| 0 <= k < n implies all[2 * k] as int == '0' as int + (
        #[trigger] bytes[k]) as int % 16 && all[2 * k + 1] as int == '0' as int + bytes[k] as int
            / 16 by {
            if k > 0 {
                assert(rest[k - 1] == bytes[k]);
                assert(all[2 * k] == tbcd(rest)[2 * (k - 1)]);
                assert(all[2 * k + 1] == tbcd(rest)[2 * (k - 1) + 1]);
            }
        }
    }
}

} // verus!
