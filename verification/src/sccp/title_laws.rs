//! What a translation answers, stated on the configuration that it was compiled from.
use crate::config::{GroupMember, GttGroup, GttMatch, GttRule, PlmnMapEntry, RouteTarget, Sccp};
use crate::sccp::convert::{
    longest_key, longest_prefix, networks_of, prefix_table, to_e164, to_e214,
    Network,
};
use crate::sccp::gtt::{
    address_of, cost_of, criteria_hold, first_match, group_named, picked, weight_of, GroupState,
    GttResolver, GttSelector, Title, Translated,
};
use crate::text::begins_with;
use vstd::prelude::*;

verus! {

/// A criterion on a field: the title carries exactly the value that the rule names.
pub open spec fn carries(want: Option<u8>, have: Option<u8>) -> bool {
    match (want, have) {
        (None, _) => true,
        (Some(w), Some(h)) => w == h,
        (Some(_), None) => false,
    }
}

/// A rule fits a title: the title's digits begin with the rule's prefix, and its
/// indicator, translation type, numbering plan and nature of address are those that the
/// rule names.
pub open spec fn fits_title(m: GttMatch, sel: GttSelector) -> bool {
    &&& m.gt_prefix is Some ==> m.gt_prefix->Some_0@.is_prefix_of(sel.digits@)
    &&& carries(m.gti, sel.gti)
    &&& carries(m.tt, sel.tt)
    &&& carries(m.np, sel.np)
    &&& carries(m.nai, sel.nai)
}

proof fn begins_is_prefix(d: Seq<char>, p: Seq<char>)
    ensures
        begins_with(d, p) == p.is_prefix_of(d),
{
    if p.len() <= d.len() {
        assert(d.subrange(0, p.len() as int) =~= p <==> p =~= d.subrange(0, p.len() as int));
    }
}

/// A rule matches a title exactly if every criterion that it names holds: the prefix,
/// the indicator, the translation type, the numbering plan and the nature of address.
pub proof fn law_rule_matches_by_every_field(rule: GttRule, sel: GttSelector)
    ensures
        criteria_hold(rule.match_, sel@) <==> fits_title(rule.match_, sel),
{
    if rule.match_.gt_prefix is Some {
        begins_is_prefix(sel.digits@, rule.match_.gt_prefix->Some_0@);
    }
}

proof fn first_match_at(rules: Seq<GttRule>, t: Title, from: int, i: int)
    requires
        0 <= from <= i < rules.len(),
        criteria_hold(rules[i].match_, t),
        forall|j: int| from <= j < i ==> !criteria_hold((#[trigger] rules[j]).match_, t),
    ensures
        first_match(rules, t, from) == Some(rules[i]),
    decreases i - from,
{
    if from < i {
        first_match_at(rules, t, from + 1, i);
    }
}

proof fn no_match(rules: Seq<GttRule>, t: Title, from: int)
    requires
        0 <= from,
        forall|j: int| from <= j < rules.len() ==> !criteria_hold((#[trigger] rules[j]).match_, t),
    ensures
        first_match(rules, t, from) is None,
    decreases rules.len() - from,
{
    if from < rules.len() {
        no_match(rules, t, from + 1);
    }
}

/// What a target gives: a tenant comes first, then local termination, then the next
/// member of a group, then the point code. An absent point code or subsystem counts as 0.
pub open spec fn gives(
    groups: Map<Seq<char>, GroupState>,
    to: RouteTarget,
    result: Option<Translated>,
) -> bool {
    &&& to.tenant matches Some(n) ==> {
        &&& result is Some && result->Some_0 is Tenant
        &&& result->Some_0->tenant == n@
        &&& to.dpc matches Some(p) ==> result->Some_0->Tenant_dpc == p.0
        &&& to.dpc is None ==> result->Some_0->Tenant_dpc == 0
        &&& to.ssn matches Some(s) ==> result->Some_0->Tenant_ssn == s
        &&& to.ssn is None ==> result->Some_0->Tenant_ssn == 0
    }
    &&& to.tenant is None && to.local == Some(true) ==> result == Some(Translated::Local)
    &&& to.tenant is None && to.local != Some(true) && to.group is Some ==> {
        let n = to.group->Some_0@;
        &&& result is Some <==> groups.contains_key(n) && groups[n].members@.len() > 0
        &&& result is Some ==> result->Some_0 is Dpc && picked(groups, n) == Some(
            (result->Some_0->Dpc_dpc, result->Some_0->Dpc_ssn),
        )
    }
    &&& to.tenant is None && to.local != Some(true) && to.group is None ==> {
        &&& to.dpc is None ==> result is None
        &&& to.dpc matches Some(p) ==> result is Some && result->Some_0 is Dpc
            && result->Some_0->Dpc_dpc == p.0 && (to.ssn matches Some(s)
            ==> result->Some_0->Dpc_ssn == s) && (to.ssn is None ==> result->Some_0->Dpc_ssn == 0)
    }
}

/// A title translates by the first configured rule that fits it, whatever rules follow,
/// and its target is the one resolved. Only the group that the target falls to moves on.
pub proof fn law_first_fitting_rule_translates(
    r: GttResolver,
    sel: GttSelector,
    i: int,
)
    requires
        0 <= i < r.rule_list().len(),
        fits_title(r.rule_list()[i].match_, sel),
        forall|j: int| 0 <= j < i ==> !fits_title((#[trigger] r.rule_list()[j]).match_, sel),
    ensures
        r.matched(sel@) == Some(r.rule_list()[i].to),
        gives(r.group_map(), r.rule_list()[i].to, r.translation(sel@)),
        forall|n: Seq<char>|
            #![trigger r.groups_after(sel@)[n]]
            r.group_map().contains_key(n) && (r.rule_list()[i].to.group is None
                || r.rule_list()[i].to.group->Some_0@ != n || r.rule_list()[i].to.tenant is Some
                || r.rule_list()[i].to.local == Some(true)) ==> r.groups_after(sel@)[n]
                == r.group_map()[n],
        r.groups_after(sel@).dom() == r.group_map().dom(),
{
    let rules = r.rule_list();
    assert forall|j: int| 0 <= j <= i implies criteria_hold((#[trigger] rules[j]).match_, sel@)
        == fits_title(rules[j].match_, sel) by {
        law_rule_matches_by_every_field(rules[j], sel);
    }
    first_match_at(rules, sel@, 0, i);
    assert(r.groups_after(sel@).dom() =~= r.group_map().dom());
}

/// A title that no rule fits translates to nothing, and no group moves on.
pub proof fn law_unmatched_title_translates_to_nothing(r: GttResolver, sel: GttSelector)
    requires
        forall|j: int|
            0 <= j < r.rule_list().len() ==> !fits_title((#[trigger] r.rule_list()[j]).match_, sel),
    ensures
        r.matched(sel@) is None,
        r.translation(sel@) is None,
        r.groups_after(sel@) == r.group_map(),
{
    let rules = r.rule_list();
    assert forall|j: int| 0 <= j < rules.len() implies !criteria_hold(
        (#[trigger] rules[j]).match_,
        sel@,
    ) by {
        law_rule_matches_by_every_field(rules[j], sel);
        assert(!fits_title(rules[j].match_, sel));
    }
    no_match(rules, sel@, 0);
}

/// The compiled tables hold the configured rules in their order and the configured
/// subsystems.
pub proof fn law_compiled_rules_are_configured(r: GttResolver, sccp: Sccp, i: int)
    requires
        r.compiled_from(sccp),
        0 <= i < sccp.gtt@.len(),
    ensures
        r.rule_list().len() == sccp.gtt@.len(),
        r.rule_list()[i] == sccp.gtt@[i],
        forall|s: u8| r.owned().contains(s) <==> sccp.local_ssns@.contains(s),
{
}

/// A group is found by its name; the last one configured counts where several share it.
pub proof fn law_group_is_found_by_name(gs: Seq<GttGroup>, i: int)
    requires
        0 <= i < gs.len(),
        forall|j: int| i < j < gs.len() ==> (#[trigger] gs[j]).name@ != gs[i].name@,
    ensures
        group_named(gs, gs[i].name@) == Some(gs[i]),
    decreases gs.len(),
{
    if i < gs.len() - 1 {
        assert(gs[gs.len() - 1].name@ != gs[i].name@);
        assert(gs.drop_last()[i] == gs[i]);
        law_group_is_found_by_name(gs.drop_last(), i);
    }
}

/// No group is found under a name that none has.
pub proof fn law_unknown_group_is_not_found(gs: Seq<GttGroup>, name: Seq<char>)
    requires
        forall|j: int| 0 <= j < gs.len() ==> (#[trigger] gs[j]).name@ != name,
    ensures
        group_named(gs, name) is None,
    decreases gs.len(),
{
    if gs.len() > 0 {
        assert(gs[gs.len() - 1].name@ != name);
        assert forall|j: int| 0 <= j < gs.drop_last().len() implies (
        #[trigger] gs.drop_last()[j]).name@ != name by {
            assert(gs[j].name@ != name);
        }
        law_unknown_group_is_not_found(gs.drop_last(), name);
    }
}

/// Of two members, one without a cost never ranks before one that has a cost, and a
/// larger weight never counts for less; a member leads to its own address.
pub proof fn law_member_fields(x: GroupMember, y: GroupMember)
    ensures
        x.cost matches Some(a) ==> (y.cost matches Some(b) ==> (cost_of(x) < cost_of(y) <==> a < b)),
        x.cost is None ==> cost_of(y) <= cost_of(x),
        y.cost is None && (x.cost matches Some(a) && a < 255) ==> cost_of(x) < cost_of(y),
        x.weight is None ==> weight_of(x) == 1,
        x.weight == Some(0u8) ==> weight_of(x) == 1,
        x.weight matches Some(w) ==> w > 0 ==> weight_of(x) == w,
        address_of(x).0 == x.dpc.0,
        address_of(x).1 == x.ssn,
{
}

// ── Conversion between E.214 and E.164 ──────────────────────────────────────

/// The network code of an entry begins these digits.
pub open spec fn network_begins(e: PlmnMapEntry, digits: Seq<char>) -> bool {
    (e.mcc@ + e.mnc@).is_prefix_of(digits)
}

proof fn table_has(es: Seq<Network>, n: int, k: Seq<char>)
    requires
        0 <= n <= es.len(),
    ensures
        prefix_table(es, n).contains_key(k) <==> exists|i: int|
            0 <= i < n && (#[trigger] es[i]).1 == k,
    decreases n,
{
    if n > 0 {
        table_has(es, n - 1, k);
        if es[n - 1].1 != k && prefix_table(es, n).contains_key(k) {
            let i = choose|i: int| 0 <= i < n - 1 && (#[trigger] es[i]).1 == k;
            assert(es[i].1 == k);
        }
        if exists|i: int| 0 <= i < n && (#[trigger] es[i]).1 == k {
            let i = choose|i: int| 0 <= i < n && (#[trigger] es[i]).1 == k;
            if i < n - 1 {
                assert(es[i].1 == k);
            }
        }
    }
}

proof fn table_value(es: Seq<Network>, n: int, i: int)
    requires
        0 <= i < n <= es.len(),
        forall|j: int| i < j < n ==> (#[trigger] es[j]).1 != es[i].1,
    ensures
        prefix_table(es, n).contains_key(es[i].1),
        prefix_table(es, n)[es[i].1] == es[i].0,
    decreases n,
{
    if i < n - 1 {
        assert(es[n - 1].1 != es[i].1);
        table_value(es, n - 1, i);
    }
}

proof fn prefixes_of_one_length(a: Seq<char>, b: Seq<char>, d: Seq<char>)
    requires
        a.is_prefix_of(d),
        b.is_prefix_of(d),
        a.len() == b.len(),
    ensures
        a == b,
{
    assert(a =~= b);
}

/// E.214 digits become E.164 by the entry whose network code is the longest that begins
/// them: the code gives way to that entry's E.164 prefix and the rest stays. Of entries
/// with one network code the last counts.
pub proof fn law_to_e164_by_longest_network(es: Seq<PlmnMapEntry>, digits: Seq<char>, i: int)
    requires
        0 <= i < es.len(),
        network_begins(es[i], digits),
        forall|j: int|
            0 <= j < es.len() && network_begins(#[trigger] es[j], digits) ==> es[j].mcc@.len()
                + es[j].mnc@.len() < es[i].mcc@.len() + es[i].mnc@.len() || (es[j].mcc@.len()
                + es[j].mnc@.len() == es[i].mcc@.len() + es[i].mnc@.len() && j <= i),
    ensures
        to_e164(prefix_table(networks_of(es), es.len() as int), digits) == Some(
            es[i].e164_prefix@ + digits.skip((es[i].mcc@.len() + es[i].mnc@.len()) as int),
        ),
{
    let ns = networks_of(es);
    let n = es.len() as int;
    let table = prefix_table(ns, n);
    let key = ns[i].1;
    begins_is_prefix(digits, key);
    assert forall|j: int| i < j < n implies (#[trigger] ns[j]).1 != ns[i].1 by {
        if ns[j].1 == ns[i].1 {
            assert(network_begins(es[j], digits));
        }
    }
    table_value(ns, n, i);
    assert forall|o: Seq<char>| #[trigger]
        table.contains_key(o) && begins_with(digits, o) implies o.len() <= key.len() by {
        table_has(ns, n, o);
        let j = choose|j: int| 0 <= j < n && (#[trigger] ns[j]).1 == o;
        begins_is_prefix(digits, o);
        assert(network_begins(es[j], digits));
    }
    assert(longest_key(table, digits, key));
    let k = choose|k: Seq<char>| longest_key(table, digits, k);
    assert(longest_key(table, digits, k));
    begins_is_prefix(digits, k);
    prefixes_of_one_length(k, key, digits);
    assert(digits.skip(key.len() as int) =~= digits.subrange(key.len() as int, digits.len() as int));
}

/// E.214 digits that no entry's network code begins have no E.164 form.
pub proof fn law_to_e164_needs_a_network(es: Seq<PlmnMapEntry>, digits: Seq<char>)
    requires
        forall|j: int| 0 <= j < es.len() ==> !network_begins(#[trigger] es[j], digits),
    ensures
        to_e164(prefix_table(networks_of(es), es.len() as int), digits) is None,
{
    let ns = networks_of(es);
    let n = es.len() as int;
    let table = prefix_table(ns, n);
    if exists|k: Seq<char>| longest_key(table, digits, k) {
        let k = choose|k: Seq<char>| longest_key(table, digits, k);
        table_has(ns, n, k);
        let j = choose|j: int| 0 <= j < n && (#[trigger] ns[j]).1 == k;
        begins_is_prefix(digits, k);
        assert(network_begins(es[j], digits));
    }
}

/// E.164 digits become E.214 by the entry with the longest E.164 prefix that begins
/// them, the first configured among equals: the prefix gives way to that entry's network
/// code and the rest stays.
pub proof fn law_to_e214_by_longest_prefix(es: Seq<PlmnMapEntry>, digits: Seq<char>, i: int)
    requires
        0 <= i < es.len(),
        es[i].e164_prefix@.is_prefix_of(digits),
        forall|j: int|
            0 <= j < es.len() && (#[trigger] es[j]).e164_prefix@.is_prefix_of(digits)
                ==> es[j].e164_prefix@.len() < es[i].e164_prefix@.len() || (
            es[j].e164_prefix@.len() == es[i].e164_prefix@.len() && i <= j),
    ensures
        to_e214(networks_of(es), digits) == Some(
            es[i].mcc@ + es[i].mnc@ + digits.skip(es[i].e164_prefix@.len() as int),
        ),
{
    let ns = networks_of(es);
    begins_is_prefix(digits, ns[i].0);
    assert forall|j: int| 0 <= j < ns.len() && begins_with(digits, (#[trigger] ns[j]).0) implies ns[j].0.len()
        < ns[i].0.len() || (ns[j].0.len() == ns[i].0.len() && i <= j) by {
        begins_is_prefix(digits, ns[j].0);
        assert(es[j].e164_prefix@.is_prefix_of(digits));
    }
    assert(longest_prefix(ns, digits, i));
    let k = choose|k: int| longest_prefix(ns, digits, k);
    assert(k == i);
    assert(es[i].mcc@ + es[i].mnc@ + digits.skip(es[i].e164_prefix@.len() as int) =~= ns[i].1
        + digits.subrange(ns[i].0.len() as int, digits.len() as int));
}

/// E.164 digits that no entry's prefix begins have no E.214 form.
pub proof fn law_to_e214_needs_a_prefix(es: Seq<PlmnMapEntry>, digits: Seq<char>)
    requires
        forall|j: int|
            0 <= j < es.len() ==> !(#[trigger] es[j]).e164_prefix@.is_prefix_of(digits),
    ensures
        to_e214(networks_of(es), digits) is None,
{
    let ns = networks_of(es);
    if exists|k: int| longest_prefix(ns, digits, k) {
        let k = choose|k: int| longest_prefix(ns, digits, k);
        begins_is_prefix(digits, ns[k].0);
        assert(!es[k].e164_prefix@.is_prefix_of(digits));
    }
}

} // verus!
