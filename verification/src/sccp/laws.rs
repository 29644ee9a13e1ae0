//! Laws of global-title translation.
use crate::config::{GroupMember, GroupMode, GttRule, Sccp};
use crate::sccp::gtt::{
    address_of, after_selecting, by_cost, by_weight, cost_of, criteria_hold, first_match,
    group_addresses, group_named, inserted_by_cost, picked, weight_of, GroupState, GttResolver,
    Title,
};
use vstd::prelude::*;

verus! {

/// The first match is a rule that matches, and no earlier rule does.
pub proof fn law_first_match_is_first(rules: Seq<GttRule>, t: Title, from: int)
    requires
        0 <= from,
    ensures
        match first_match(rules, t, from) {
            Some(rule) => exists|i: int|
                from <= i < rules.len() && #[trigger] rules[i] == rule && criteria_hold(
                    rule.match_,
                    t,
                ) && forall|j: int|
                    from <= j < i ==> !criteria_hold((#[trigger] rules[j]).match_, t),
            None => forall|j: int|
                from <= j < rules.len() ==> !criteria_hold((#[trigger] rules[j]).match_, t),
        },
    decreases rules.len() - from,
{
    if from < rules.len() {
        if criteria_hold(rules[from].match_, t) {
            assert(rules[from] == first_match(rules, t, from)->Some_0);
        } else {
            law_first_match_is_first(rules, t, from + 1);
            if first_match(rules, t, from + 1) is Some {
                let rule = first_match(rules, t, from + 1)->Some_0;
                let i = choose|i: int|
                    from + 1 <= i < rules.len() && #[trigger] rules[i] == rule && criteria_hold(
                        rule.match_,
                        t,
                    ) && forall|j: int|
                        from + 1 <= j < i ==> !criteria_hold((#[trigger] rules[j]).match_, t);
                assert(rules[i] == rule);
            }
        }
    }
}

proof fn first_match_shift(rule: GttRule, rules: Seq<GttRule>, t: Title, from: int)
    requires
        0 <= from,
    ensures
        first_match(seq![rule] + rules, t, from + 1) == first_match(rules, t, from),
    decreases rules.len() - from,
{
    let all = seq![rule] + rules;
    if from < rules.len() {
        assert(all[from + 1] == rules[from]);
        first_match_shift(rule, rules, t, from + 1);
    }
}

/// A rule put in front of the table wins over every other rule wherever it
/// matches, and changes nothing where it does not.
pub proof fn law_added_rule_wins(rule: GttRule, rules: Seq<GttRule>, t: Title)
    ensures
        criteria_hold(rule.match_, t) ==> first_match(seq![rule] + rules, t, 0) == Some(rule),
        !criteria_hold(rule.match_, t) ==> first_match(seq![rule] + rules, t, 0) == first_match(
            rules,
            t,
            0,
        ),
{
    let all = seq![rule] + rules;
    assert(all[0] == rule);
    first_match_shift(rule, rules, t, 0);
}

/// Position `a` comes before position `b` by cost: it costs less, or the same and
/// is configured earlier.
pub open spec fn ranks_before(ms: Seq<GroupMember>, a: int, b: int) -> bool {
    cost_of(ms[a]) < cost_of(ms[b]) || (cost_of(ms[a]) == cost_of(ms[b]) && a < b)
}

/// `p` holds each of the first `n` positions once, by increasing cost, and those
/// of equal cost in the configured order.
pub open spec fn is_ranking(ms: Seq<GroupMember>, p: Seq<int>, n: int) -> bool {
    &&& p.len() == n
    &&& p.no_duplicates()
    &&& forall|k: int| p.contains(k) <==> 0 <= k < n
    &&& forall|i: int, j: int| 0 <= i < j < p.len() ==> ranks_before(ms, p[i], p[j])
}

/// The members at these positions.
pub open spec fn members_at(ms: Seq<GroupMember>, p: Seq<int>) -> Seq<GroupMember> {
    p.map_values(|k: int| ms[k])
}

spec fn inserted_position(ms: Seq<GroupMember>, p: Seq<int>, x: int) -> Seq<int>
    decreases p.len(),
{
    if p.len() == 0 || cost_of(ms[p.last()]) <= cost_of(ms[x]) {
        p.push(x)
    } else {
        inserted_position(ms, p.drop_last(), x).push(p.last())
    }
}

proof fn inserted_position_keeps_order(ms: Seq<GroupMember>, p: Seq<int>, x: int)
    requires
        forall|i: int, j: int| 0 <= i < j < p.len() ==> ranks_before(ms, p[i], p[j]),
        forall|i: int| 0 <= i < p.len() ==> p[i] < x,
    ensures
        forall|i: int, j: int|
            0 <= i < j < inserted_position(ms, p, x).len() ==> ranks_before(
                ms,
                inserted_position(ms, p, x)[i],
                inserted_position(ms, p, x)[j],
            ),
        inserted_position(ms, p, x).len() == p.len() + 1,
        forall|k: int|
            #![trigger inserted_position(ms, p, x).contains(k)]
            #![trigger p.contains(k)]
            inserted_position(ms, p, x).contains(k) <==> p.contains(k) || k == x,
        inserted_by_cost(members_at(ms, p), ms[x]) == members_at(ms, inserted_position(ms, p, x)),
    decreases p.len(),
{
    let q = inserted_position(ms, p, x);
    let s = members_at(ms, p);
    if p.len() == 0 || cost_of(ms[p.last()]) <= cost_of(ms[x]) {
        assert forall|i: int, j: int| 0 <= i < j < q.len() implies ranks_before(ms, q[i], q[j]) by {
            if j == p.len() && i < p.len() - 1 {
                assert(ranks_before(ms, p[i], p.last()));
            }
        }
        assert forall|k: int|
            #![trigger q.contains(k)]
            #![trigger p.contains(k)]
            q.contains(k) <==> p.contains(k) || k == x by {
            if p.contains(k) {
                let i = choose|i: int| 0 <= i < p.len() && p[i] == k;
                assert(q[i] == k);
            }
            if q.contains(k) {
                let i = choose|i: int| 0 <= i < q.len() && q[i] == k;
                if i < p.len() {
                    assert(p[i] == k);
                }
            }
            assert(q[p.len() as int] == x);
        }
        assert(inserted_by_cost(s, ms[x]) == s.push(ms[x]));
        assert(s.push(ms[x]) =~= members_at(ms, q));
    } else {
        let head = p.drop_last();
        let r = inserted_position(ms, head, x);
        inserted_position_keeps_order(ms, head, x);
        assert(q == r.push(p.last()));
        assert forall|i: int, j: int| 0 <= i < j < q.len() implies ranks_before(ms, q[i], q[j]) by {
            if j == r.len() {
                assert(r.contains(r[i]));
                if head.contains(r[i]) {
                    let k = choose|k: int| 0 <= k < head.len() && head[k] == r[i];
                    assert(p[k] == r[i]);
                    assert(ranks_before(ms, p[k], p[p.len() - 1]));
                }
            }
        }
        assert forall|k: int|
            #![trigger q.contains(k)]
            #![trigger p.contains(k)]
            q.contains(k) <==> p.contains(k) || k == x by {
            if p.contains(k) {
                let i = choose|i: int| 0 <= i < p.len() && p[i] == k;
                if i < head.len() {
                    assert(head[i] == k);
                    assert(head.contains(k));
                    assert(r.contains(k));
                }
            }
            if r.contains(k) {
                let i = choose|i: int| 0 <= i < r.len() && r[i] == k;
                assert(q[i] == k);
                if head.contains(k) {
                    let i = choose|i: int| 0 <= i < head.len() && head[i] == k;
                    assert(p[i] == k);
                }
            }
            if q.contains(k) {
                let i = choose|i: int| 0 <= i < q.len() && q[i] == k;
                if i < r.len() {
                    assert(r.contains(k));
                } else {
                    assert(p[p.len() - 1] == k);
                }
            }
            assert(q[r.len() as int] == p.last());
            assert(r.contains(x));
        }
        assert(s.drop_last() =~= members_at(ms, head));
        assert(s.last() == ms[p.last()]);
        assert(members_at(ms, r).push(ms[p.last()]) =~= members_at(ms, q));
    }
}

proof fn ranked(ms: Seq<GroupMember>, n: int) -> (p: Seq<int>)
    requires
        0 <= n <= ms.len(),
    ensures
        is_ranking(ms, p, n),
        by_cost(ms, n) == members_at(ms, p),
    decreases n,
{
    if n == 0 {
        let p = Seq::<int>::empty();
        assert(by_cost(ms, 0) =~= members_at(ms, p));
        p
    } else {
        let p = ranked(ms, n - 1);
        assert forall|i: int| 0 <= i < p.len() implies p[i] < n - 1 by {
            assert(p.contains(p[i]));
        }
        inserted_position_keeps_order(ms, p, n - 1);
        let q = inserted_position(ms, p, n - 1);
        assert forall|i: int, j: int| 0 <= i < q.len() && 0 <= j < q.len() && i != j implies q[i]
            != q[j] by {
            if i < j {
                assert(ranks_before(ms, q[i], q[j]));
            } else {
                assert(ranks_before(ms, q[j], q[i]));
            }
        }
        assert forall|k: int| q.contains(k) <==> 0 <= k < n by {
            assert(p.contains(k) <==> 0 <= k < n - 1);
        }
        q
    }
}

/// The fail-over list of a group that was compiled from the configuration: there
/// is one exactly if the group exists and is in cost mode. It holds each member of
/// the group once, by increasing cost, where an absent cost counts as 255, and
/// members of equal cost in the configured order. A selection gives its first.
pub proof fn law_cost_order_is_stable(r: GttResolver, sccp: Sccp, name: Seq<char>)
    requires
        r.compiled_from(sccp),
    ensures
        r.cost_list(name) is Some <==> (group_named(sccp.gtt_groups@, name) matches Some(g)
            && g.mode == GroupMode::Cost),
        r.cost_list(name) matches Some(list) ==> {
            let ms = group_named(sccp.gtt_groups@, name)->Some_0.members@;
            &&& exists|p: Seq<int>| #[trigger]
                is_ranking(ms, p, ms.len() as int) && list == members_at(ms, p).map_values(
                    |m: GroupMember| address_of(m),
                )
            &&& list.len() > 0 ==> picked(r.group_map(), name) == Some(list[0])
        },
{
    if r.cost_list(name) is Some {
        let g = group_named(sccp.gtt_groups@, name)->Some_0;
        assert(r.group_map().contains_key(name));
        let p = ranked(g.members@, g.members@.len() as int);
        assert(r.group_map()[name].members@ == group_addresses(g));
        assert(is_ranking(g.members@, p, g.members@.len() as int));
    } else {
        if group_named(sccp.gtt_groups@, name) is Some {
            assert(r.group_map().contains_key(name));
        }
    }
}

/// A group after `n` selections.
pub open spec fn after_selections(g: GroupState, n: nat) -> GroupState
    decreases n,
{
    if n == 0 {
        g
    } else {
        after_selections(g, (n - 1) as nat).stepped()
    }
}

/// A cost group always gives its primary.
pub proof fn law_cost_gives_primary(g: GroupState, n: nat)
    requires
        g.mode == GroupMode::Cost,
        g.members@.len() > 0,
    ensures
        after_selections(g, n).pick() == Some(g.members@[0]),
    decreases n,
{
    if n > 0 {
        law_cost_gives_primary(g, (n - 1) as nat);
        cost_group_stays(g, n);
    }
}

proof fn cost_group_stays(g: GroupState, n: nat)
    requires
        g.mode == GroupMode::Cost,
    ensures
        after_selections(g, n) == g,
    decreases n,
{
    if n > 0 {
        cost_group_stays(g, (n - 1) as nat);
    }
}

/// A share group gives its members in turn, round and round: selection number
/// `n` gives the member `n` places further on.
pub proof fn law_share_rotates(g: GroupState, n: nat)
    requires
        g.mode == GroupMode::Share,
        g.members@.len() > 0,
        g.cursor + n <= usize::MAX,
    ensures
        after_selections(g, n).members == g.members,
        after_selections(g, n).mode == g.mode,
        after_selections(g, n).cursor == g.cursor + n,
        after_selections(g, n).pick() == Some(
            g.members@[(g.cursor + n) as int % g.members@.len() as int],
        ),
    decreases n,
{
    if n > 0 {
        law_share_rotates(g, (n - 1) as nat);
    }
}

// ── Rounds of selections ────────────────────────────────────────────────────

/// The groups after `n` selections from one of them.
pub open spec fn groups_after_selections(
    groups: Map<Seq<char>, GroupState>,
    name: Seq<char>,
    n: nat,
) -> Map<Seq<char>, GroupState>
    decreases n,
{
    if n == 0 {
        groups
    } else {
        after_selecting(groups_after_selections(groups, name, (n - 1) as nat), name)
    }
}

/// What selection number `n` from a group gives, counted from 0.
pub open spec fn selection(groups: Map<Seq<char>, GroupState>, name: Seq<char>, n: nat) -> Option<
    (u32, u8),
> {
    picked(groups_after_selections(groups, name, n), name)
}

/// What `w` selections from number `k` on give.
pub open spec fn selections(
    groups: Map<Seq<char>, GroupState>,
    name: Seq<char>,
    k: nat,
    w: nat,
) -> Seq<Option<(u32, u8)>> {
    Seq::new(w, |i: int| selection(groups, name, (k + i) as nat))
}

/// The sum of the weights of the first `n` members.
pub open spec fn total_weight(ms: Seq<GroupMember>, n: int) -> nat
    decreases n,
{
    if n <= 0 {
        0
    } else {
        total_weight(ms, n - 1) + weight_of(ms[n - 1])
    }
}

/// The sum of the weights of those of the first `n` members that lead to `a`.
pub open spec fn weight_to(ms: Seq<GroupMember>, n: int, a: (u32, u8)) -> nat
    decreases n,
{
    if n <= 0 {
        0
    } else {
        weight_to(ms, n - 1, a) + (if address_of(ms[n - 1]) == a {
            weight_of(ms[n - 1])
        } else {
            0
        })
    }
}

/// How often a value occurs in a list.
pub open spec fn times<A>(s: Seq<A>, a: A) -> nat
    decreases s.len(),
{
    if s.len() == 0 {
        0
    } else {
        times(s.drop_last(), a) + (if s.last() == a {
            1nat
        } else {
            0
        })
    }
}

/// No member is as cheap as member `i` and earlier, and none is cheaper.
pub open spec fn is_cheapest(ms: Seq<GroupMember>, i: int) -> bool {
    &&& 0 <= i < ms.len()
    &&& forall|j: int| 0 <= j < ms.len() && j != i ==> #[trigger] ranks_before(ms, i, j)
}

proof fn times_of_sum<A>(s: Seq<A>, t: Seq<A>, a: A)
    ensures
        times(s + t, a) == times(s, a) + times(t, a),
    decreases t.len(),
{
    if t.len() == 0 {
        assert(s + t =~= s);
    } else {
        assert((s + t).drop_last() =~= s + t.drop_last());
        times_of_sum(s, t.drop_last(), a);
    }
}

proof fn times_of_same<A>(s: Seq<A>, x: A, a: A)
    requires
        forall|i: int| 0 <= i < s.len() ==> s[i] == x,
    ensures
        times(s, a) == if x == a {
            s.len()
        } else {
            0
        },
    decreases s.len(),
{
    if s.len() > 0 {
        times_of_same(s.drop_last(), x, a);
    }
}

proof fn weighted(ms: Seq<GroupMember>, n: int, a: (u32, u8))
    requires
        0 <= n <= ms.len(),
    ensures
        times(by_weight(ms, n), a) == weight_to(ms, n, a),
        by_weight(ms, n).len() == total_weight(ms, n),
        n <= total_weight(ms, n),
    decreases n,
{
    if n > 0 {
        weighted(ms, n - 1, a);
        let more = Seq::new(weight_of(ms[n - 1]), |i: int| address_of(ms[n - 1]));
        times_of_same(more, address_of(ms[n - 1]), a);
        times_of_sum(by_weight(ms, n - 1), more, a);
    }
}

proof fn selections_step_the_group(
    groups: Map<Seq<char>, GroupState>,
    name: Seq<char>,
    n: nat,
)
    requires
        groups.contains_key(name),
    ensures
        groups_after_selections(groups, name, n).contains_key(name),
        groups_after_selections(groups, name, n)[name] == after_selections(groups[name], n),
    decreases n,
{
    if n > 0 {
        selections_step_the_group(groups, name, (n - 1) as nat);
    }
}

proof fn unknown_group_stays_unknown(groups: Map<Seq<char>, GroupState>, name: Seq<char>, n: nat)
    requires
        !groups.contains_key(name),
    ensures
        groups_after_selections(groups, name, n) == groups,
    decreases n,
{
    if n > 0 {
        unknown_group_stays_unknown(groups, name, (n - 1) as nat);
    }
}

/// A selection from a compiled group gives nothing exactly if the group is unknown
/// or has no members, however many came before.
pub proof fn law_selection_needs_a_member(r: GttResolver, sccp: Sccp, name: Seq<char>, n: nat)
    requires
        r.compiled_from(sccp),
    ensures
        selection(r.group_map(), name, n) is None <==> (group_named(sccp.gtt_groups@, name) is None
            || group_named(sccp.gtt_groups@, name)->Some_0.members@.len() == 0),
{
    if r.group_map().contains_key(name) {
        selections_step_the_group(r.group_map(), name, n);
        let g = group_named(sccp.gtt_groups@, name)->Some_0;
        let s = r.group_map()[name];
        assert(s.members@ == group_addresses(g));
        let p = ranked(g.members@, g.members@.len() as int);
        weighted(g.members@, g.members@.len() as int, (0, 0));
        assert(by_weight(g.members@, 0) =~= Seq::empty());
        members_stay(s, n);
    } else {
        unknown_group_stays_unknown(r.group_map(), name, n);
    }
}

proof fn members_stay(g: GroupState, n: nat)
    ensures
        after_selections(g, n).members == g.members,
    decreases n,
{
    if n > 0 {
        members_stay(g, (n - 1) as nat);
    }
}

/// A compiled cost group gives at every selection the address of the member of
/// least cost, where an absent cost counts as 255, and of the first configured
/// among equals.
pub proof fn law_cost_group_gives_cheapest(r: GttResolver, sccp: Sccp, name: Seq<char>, n: nat)
    requires
        r.compiled_from(sccp),
        group_named(sccp.gtt_groups@, name) matches Some(g) && g.mode == GroupMode::Cost
            && g.members@.len() > 0,
    ensures
        exists|i: int|
            is_cheapest(group_named(sccp.gtt_groups@, name)->Some_0.members@, i)
                && selection(r.group_map(), name, n) == Some(
                address_of(#[trigger] group_named(sccp.gtt_groups@, name)->Some_0.members@[i]),
            ),
{
    let g = group_named(sccp.gtt_groups@, name)->Some_0;
    let ms = g.members@;
    assert(r.group_map().contains_key(name));
    let s = r.group_map()[name];
    assert(s.members@ == group_addresses(g));
    selections_step_the_group(r.group_map(), name, n);
    law_cost_gives_primary(s, n);
    let p = ranked(ms, ms.len() as int);
    let i = p[0];
    assert(p.contains(i));
    assert forall|j: int| 0 <= j < ms.len() && j != i implies #[trigger] ranks_before(ms, i, j) by {
        assert(p.contains(j));
        let at = choose|at: int| 0 <= at < p.len() && p[at] == j;
        assert(ranks_before(ms, p[0], p[at]));
    }
    assert(is_cheapest(ms, i));
    assert(s.members@[0] == address_of(ms[i]));
}

/// A compiled share group goes round: with `w` the sum of its members' weights, an
/// absent weight or 0 counting as 1, any `w` consecutive selections give each
/// address as often as the members that lead to it weigh together, and selection
/// `k + w` gives what selection `k` gave. Fewer than 2^32 selections are made.
pub proof fn law_share_round(r: GttResolver, sccp: Sccp, name: Seq<char>, k: nat, a: (u32, u8))
    requires
        r.compiled_from(sccp),
        group_named(sccp.gtt_groups@, name) matches Some(g) && g.mode == GroupMode::Share
            && g.members@.len() > 0 && k + total_weight(g.members@, g.members@.len() as int)
            <= u32::MAX,
    ensures
        ({
            let ms = group_named(sccp.gtt_groups@, name)->Some_0.members@;
            let w = total_weight(ms, ms.len() as int);
            &&& times(selections(r.group_map(), name, k, w), Some(a)) == weight_to(
                ms,
                ms.len() as int,
                a,
            )
            &&& selection(r.group_map(), name, k + w) == selection(r.group_map(), name, k)
        }),
{
    let g = group_named(sccp.gtt_groups@, name)->Some_0;
    let ms = g.members@;
    let w = total_weight(ms, ms.len() as int);
    assert(r.group_map().contains_key(name));
    let s = r.group_map()[name];
    let all = s.members@;
    assert(all == by_weight(ms, ms.len() as int));
    weighted(ms, ms.len() as int, a);
    let given = selections(r.group_map(), name, k, w);
    let c = k as int % w as int;
    let wrap = |x: (u32, u8)| Some(x);
    let head = all.subrange(0, c).map_values(wrap);
    let tail = all.subrange(c, w as int).map_values(wrap);
    assert forall|i: int| 0 <= i < w implies given[i] == (tail + head)[i] by {
        assert(given[i] == selection(r.group_map(), name, (k + i) as nat));
        share_selection(r.group_map(), name, (k + i) as nat);
        if i < w - c {
            rest_of_sum(k as int, i, w as int, c + i);
        } else {
            rest_of_sum(k as int, i, w as int, c + i - w);
        }
    }
    assert(given =~= tail + head);
    times_of_sum(tail, head, Some(a));
    times_of_sum(all.subrange(0, c), all.subrange(c, w as int), a);
    assert(all.subrange(0, c) + all.subrange(c, w as int) =~= all);
    times_of_wrapped(all.subrange(0, c), a);
    times_of_wrapped(all.subrange(c, w as int), a);
    assert(head =~= all.subrange(0, c).map_values(|x: (u32, u8)| Some(x)));
    assert(tail =~= all.subrange(c, w as int).map_values(|x: (u32, u8)| Some(x)));
    share_selection(r.group_map(), name, k);
    share_selection(r.group_map(), name, k + w);
    rest_of_sum(k as int, w as int, w as int, c);
}

proof fn weighted_place(ms: Seq<GroupMember>, n: int, i: int, s: int)
    requires
        0 <= i < n <= ms.len(),
        total_weight(ms, i) <= s < total_weight(ms, i + 1),
    ensures
        s < by_weight(ms, n).len(),
        by_weight(ms, n)[s] == (ms[i].dpc.0, ms[i].ssn),
    decreases n,
{
    weighted(ms, n - 1, (0, 0));
    if i < n - 1 {
        weighted_place(ms, n - 1, i, s);
    }
}

/// A compiled share group starts with its first member and keeps the configured order:
/// each member is given as often in a row as it weighs before the next one's turn.
pub proof fn law_share_keeps_order(r: GttResolver, sccp: Sccp, name: Seq<char>, i: int, s: nat)
    requires
        r.compiled_from(sccp),
        group_named(sccp.gtt_groups@, name) matches Some(g) && g.mode == GroupMode::Share && 0 <= i
            < g.members@.len() && total_weight(g.members@, i) <= s < total_weight(g.members@, i + 1),
        s <= u32::MAX,
    ensures
        ({
            let m = group_named(sccp.gtt_groups@, name)->Some_0.members@[i];
            selection(r.group_map(), name, s) == Some((m.dpc.0, m.ssn))
        }),
{
    let g = group_named(sccp.gtt_groups@, name)->Some_0;
    let ms = g.members@;
    assert(r.group_map().contains_key(name));
    assert(r.group_map()[name].members@ == by_weight(ms, ms.len() as int));
    weighted_place(ms, ms.len() as int, i, s as int);
    share_selection(r.group_map(), name, s);
    vstd::arithmetic::div_mod::lemma_small_mod(s, by_weight(ms, ms.len() as int).len());
}

proof fn share_selection(groups: Map<Seq<char>, GroupState>, name: Seq<char>, n: nat)
    requires
        groups.contains_key(name),
        groups[name].mode == GroupMode::Share,
        groups[name].cursor == 0,
        groups[name].members@.len() > 0,
        n <= u32::MAX,
    ensures
        selection(groups, name, n) == Some(
            groups[name].members@[n as int % groups[name].members@.len() as int],
        ),
{
    selections_step_the_group(groups, name, n);
    law_share_rotates(groups[name], n);
}

proof fn times_of_wrapped(s: Seq<(u32, u8)>, a: (u32, u8))
    ensures
        times(s.map_values(|x: (u32, u8)| Some(x)), Some(a)) == times(s, a),
    decreases s.len(),
{
    let t = s.map_values(|x: (u32, u8)| Some(x));
    if s.len() > 0 {
        times_of_wrapped(s.drop_last(), a);
        assert(t.drop_last() =~= s.drop_last().map_values(|x: (u32, u8)| Some(x)));
    }
}

proof fn rest_of_sum(k: int, i: int, w: int, rest: int)
    requires
        0 <= k,
        0 <= i <= w,
        0 < w,
        0 <= rest < w,
        rest == k % w + i || rest == k % w + i - w,
    ensures
        (k + i) % w == rest,
{
    let q = k / w;
    vstd::arithmetic::div_mod::lemma_fundamental_div_mod(k, w);
    if rest == k % w + i {
        assert(k + i == w * q + rest);
        assert(w * q == q * w) by (nonlinear_arith);
        vstd::arithmetic::div_mod::lemma_fundamental_div_mod_converse(k + i, w, q, rest);
    } else {
        assert(k + i == w * q + w + rest);
        assert(w * q + w == (q + 1) * w) by (nonlinear_arith);
        vstd::arithmetic::div_mod::lemma_fundamental_div_mod_converse(k + i, w, q + 1, rest);
    }
}

} // verus!
