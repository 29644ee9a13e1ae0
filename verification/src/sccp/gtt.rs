//! Global-title translation.
//!
//! An incoming global title is matched against the ordered rules; the first rule
//! whose criteria all hold gives the result: a concrete point code and subsystem,
//! a group resolved to a member by cost or by weighted round-robin, local
//! termination, or a hand-off to another tenant.
use crate::config::{GroupMember, GroupMode, GttGroup, GttMatch, GttRule, RouteTarget, Sccp, TenantId};
use crate::sorted_map::{Key, NameMap, SortedMap};
use crate::text::{begins_with, starts_with};
use vstd::prelude::*;
use vstd::string::*;

pub use crate::sccp::convert::GtConverter;

verus! {

/// The global-title fields that a translation rule matches on.
#[derive(Clone, Debug, PartialEq, Eq)]
pub struct GttSelector {
    /// The digits.
    pub digits: String,
    /// The global-title indicator.
    pub gti: Option<u8>,
    /// The translation type.
    pub tt: Option<u8>,
    /// The numbering plan.
    pub np: Option<u8>,
    /// The nature-of-address indicator.
    pub nai: Option<u8>,
}

/// What a [`GttSelector`] holds.
pub struct Title {
    pub digits: Seq<char>,
    pub gti: Option<u8>,
    pub tt: Option<u8>,
    pub np: Option<u8>,
    pub nai: Option<u8>,
}

impl View for GttSelector {
    type V = Title;

    open spec fn view(&self) -> Title {
        Title { digits: self.digits@, gti: self.gti, tt: self.tt, np: self.np, nai: self.nai }
    }
}

impl Default for GttSelector {
    fn default() -> (r: GttSelector)
        ensures
            r@ == (Title { digits: Seq::empty(), gti: None, tt: None, np: None, nai: None }),
    {
        GttSelector { digits: String::new(), gti: None, tt: None, np: None, nai: None }
    }
}

impl GttSelector {
    /// A selector with these digits and no other field.
    pub fn from_digits(digits: &str) -> (r: GttSelector)
        ensures
            r@ == (Title { digits: digits@, gti: None, tt: None, np: None, nai: None }),
    {
        GttSelector { digits: digits.to_owned(), gti: None, tt: None, np: None, nai: None }
    }

    /// A copy of this selector.
    pub fn copy(&self) -> (r: GttSelector)
        ensures
            r@ == self@,
    {
        GttSelector {
            digits: self.digits.clone(),
            gti: self.gti,
            tt: self.tt,
            np: self.np,
            nai: self.nai,
        }
    }
}

/// The result of a translation.
#[derive(Clone, Debug, PartialEq, Eq)]
pub enum GttResult {
    /// Route to a point code and subsystem.
    Dpc { dpc: u32, ssn: u8 },
    /// Terminate locally.
    Local,
    /// Hand off into another routing domain.
    Tenant { tenant: TenantId, dpc: u32, ssn: u8 },
}

/// What a [`GttResult`] says.
pub enum Translated {
    Dpc { dpc: u32, ssn: u8 },
    Local,
    Tenant { tenant: Seq<char>, dpc: u32, ssn: u8 },
}

impl View for GttResult {
    type V = Translated;

    open spec fn view(&self) -> Translated {
        match *self {
            GttResult::Dpc { dpc, ssn } => Translated::Dpc { dpc, ssn },
            GttResult::Local => Translated::Local,
            GttResult::Tenant { tenant, dpc, ssn } => Translated::Tenant {
                tenant: tenant@,
                dpc,
                ssn,
            },
        }
    }
}

/// What an optional result says.
pub open spec fn translated(r: Option<GttResult>) -> Option<Translated> {
    match r {
        Some(x) => Some(x@),
        None => None,
    }
}

// ── Groups ──────────────────────────────────────────────────────────────────

/// The cost of a member; one without a cost comes last.
pub open spec fn cost_of(m: GroupMember) -> u8 {
    match m.cost {
        Some(c) => c,
        None => 255,
    }
}

/// The weight of a member, at least 1.
pub open spec fn weight_of(m: GroupMember) -> nat {
    match m.weight {
        Some(w) => if w == 0 {
            1
        } else {
            w as nat
        },
        None => 1,
    }
}

/// Where a member leads.
pub open spec fn address_of(m: GroupMember) -> (u32, u8) {
    (m.dpc.0, m.ssn)
}

/// A list ordered by cost with one more member, after those of the same cost.
pub open spec fn inserted_by_cost(s: Seq<GroupMember>, x: GroupMember) -> Seq<GroupMember>
    decreases s.len(),
{
    if s.len() == 0 || cost_of(s.last()) <= cost_of(x) {
        s.push(x)
    } else {
        inserted_by_cost(s.drop_last(), x).push(s.last())
    }
}

/// The first `n` members by increasing cost; members of equal cost keep their
/// order.
pub open spec fn by_cost(ms: Seq<GroupMember>, n: int) -> Seq<GroupMember>
    decreases n,
{
    if n <= 0 {
        Seq::empty()
    } else {
        inserted_by_cost(by_cost(ms, n - 1), ms[n - 1])
    }
}

/// The first `n` members, each repeated as often as it weighs.
pub open spec fn by_weight(ms: Seq<GroupMember>, n: int) -> Seq<(u32, u8)>
    decreases n,
{
    if n <= 0 {
        Seq::empty()
    } else {
        by_weight(ms, n - 1) + Seq::new(weight_of(ms[n - 1]), |i: int| address_of(ms[n - 1]))
    }
}

/// The addresses a group picks from, in order.
pub open spec fn group_addresses(g: GttGroup) -> Seq<(u32, u8)> {
    match g.mode {
        GroupMode::Cost => by_cost(g.members@, g.members@.len() as int).map_values(
            |m: GroupMember| address_of(m),
        ),
        GroupMode::Share => by_weight(g.members@, g.members@.len() as int),
    }
}

/// A group ready for selection.
#[derive(Clone, Debug)]
pub struct GroupState {
    /// How a member is picked.
    pub mode: GroupMode,
    /// The addresses to pick from.
    pub members: Vec<(u32, u8)>,
    /// The round-robin position in share mode.
    pub cursor: usize,
}

impl GroupState {
    /// The address the next selection gives: the primary in cost mode, the one at
    /// the round-robin position in share mode.
    pub open spec fn pick(self) -> Option<(u32, u8)> {
        if self.members@.len() == 0 {
            None
        } else {
            match self.mode {
                GroupMode::Cost => Some(self.members@[0]),
                GroupMode::Share => Some(self.members@[self.cursor as int % self.members@.len() as int]),
            }
        }
    }

    /// The group after a selection: in share mode the position moves on by one.
    pub open spec fn stepped(self) -> GroupState {
        if self.members@.len() > 0 && self.mode == GroupMode::Share {
            GroupState {
                cursor: if self.cursor == usize::MAX {
                    0
                } else {
                    (self.cursor + 1) as usize
                },
                ..self
            }
        } else {
            self
        }
    }

    /// Compiles a group.
    pub fn from(group: &GttGroup) -> (r: GroupState)
        ensures
            r.mode == group.mode,
            r.members@ == group_addresses(*group),
            r.cursor == 0,
    {
        let members = match group.mode {
            GroupMode::Cost => cost_members(&group.members),
            GroupMode::Share => share_members(&group.members),
        };
        GroupState { mode: group.mode, members, cursor: 0 }
    }

    /// Picks a member.
    pub fn select(&mut self) -> (r: Option<(u32, u8)>)
        ensures
            r == old(self).pick(),
            *final(self) == old(self).stepped(),
    {
        if self.members.len() == 0 {
            return None;
        }
        match self.mode {
            GroupMode::Cost => Some(self.members[0]),
            GroupMode::Share => {
                let n: usize = self.cursor;
                self.cursor = if n == usize::MAX {
                    0
                } else {
                    n + 1
                };
                Some(self.members[n % self.members.len()])
            },
        }
    }
}

fn member_cost(m: &GroupMember) -> (r: u8)
    ensures
        r == cost_of(*m),
{
    match m.cost {
        Some(c) => c,
        None => 255,
    }
}

fn cost_members(ms: &Vec<GroupMember>) -> (r: Vec<(u32, u8)>)
    ensures
        r@ == by_cost(ms@, ms@.len() as int).map_values(|m: GroupMember| address_of(m)),
{
    let mut sorted: Vec<GroupMember> = Vec::new();
    let mut i: usize = 0;
    while i < ms.len()
        invariant
            i <= ms@.len(),
            sorted@ == by_cost(ms@, i as int),
        decreases ms.len() - i,
    {
        let x: GroupMember = ms[i];
        let ghost s = sorted@;
        let mut k: usize = sorted.len();
        proof {
            assert(s.subrange(0, k as int) =~= s);
            assert(inserted_by_cost(s, x) =~= inserted_by_cost(s.subrange(0, k as int), x)
                + s.subrange(k as int, s.len() as int));
        }
        while k > 0 && member_cost(&sorted[k - 1]) > member_cost(&x)
            invariant
                k <= s.len(),
                sorted@ == s,
                inserted_by_cost(s, x) == inserted_by_cost(s.subrange(0, k as int), x) + s.subrange(
                    k as int,
                    s.len() as int,
                ),
            decreases k,
        {
            proof {
                let head = s.subrange(0, k as int);
                assert(head.drop_last() =~= s.subrange(0, k - 1));
                assert(inserted_by_cost(head, x) + s.subrange(k as int, s.len() as int)
                    =~= inserted_by_cost(s.subrange(0, k - 1), x) + s.subrange(
                    k - 1,
                    s.len() as int,
                ));
            }
            k -= 1;
        }
        sorted.insert(k, x);
        proof {
            let head = s.subrange(0, k as int);
            if k > 0 {
                assert(head.last() == s[k - 1]);
            }
            assert(inserted_by_cost(head, x) == head.push(x));
            assert(sorted@ =~= inserted_by_cost(s, x));
        }
        i += 1;
    }
    let mut out: Vec<(u32, u8)> = Vec::new();
    let mut i: usize = 0;
    while i < sorted.len()
        invariant
            i <= sorted@.len(),
            out@.len() == i,
            forall|k: int| 0 <= k < i ==> out@[k] == address_of(#[trigger] sorted@[k]),
        decreases sorted.len() - i,
    {
        out.push((sorted[i].dpc.0, sorted[i].ssn));
        i += 1;
    }
    proof {
        assert(out@ =~= sorted@.map_values(|m: GroupMember| address_of(m)));
    }
    out
}

fn share_members(ms: &Vec<GroupMember>) -> (r: Vec<(u32, u8)>)
    ensures
        r@ == by_weight(ms@, ms@.len() as int),
{
    let mut out: Vec<(u32, u8)> = Vec::new();
    let mut i: usize = 0;
    while i < ms.len()
        invariant
            i <= ms@.len(),
            out@ == by_weight(ms@, i as int),
        decreases ms.len() - i,
    {
        let x: GroupMember = ms[i];
        let ghost s = out@;
        let w: u8 = match x.weight {
            Some(w) => if w == 0 {
                1
            } else {
                w
            },
            None => 1,
        };
        let mut k: u8 = 0;
        proof {
            assert(s + Seq::new(0, |j: int| address_of(x)) =~= s);
        }
        while k < w
            invariant
                k <= w,
                out@ == s + Seq::new(k as nat, |j: int| address_of(x)),
            decreases w - k,
        {
            out.push((x.dpc.0, x.ssn));
            proof {
                assert(out@ =~= s + Seq::new((k + 1) as nat, |j: int| address_of(x)));
            }
            k += 1;
        }
        proof {
            assert(out@ =~= by_weight(ms@, i + 1));
        }
        i += 1;
    }
    out
}

// ── Rules ───────────────────────────────────────────────────────────────────

/// A rule's criterion on an optional field: a wildcard if the rule has none,
/// else the title must carry exactly that value.
pub open spec fn field_matches(want: Option<u8>, have: Option<u8>) -> bool {
    want is Some ==> have == want
}

/// Whether a rule's criteria all hold of a title.
pub open spec fn criteria_hold(m: GttMatch, t: Title) -> bool {
    &&& m.gt_prefix matches Some(p) ==> begins_with(t.digits, p@)
    &&& field_matches(m.gti, t.gti)
    &&& field_matches(m.tt, t.tt)
    &&& field_matches(m.np, t.np)
    &&& field_matches(m.nai, t.nai)
}

/// The first rule from position `from` on that matches a title.
pub open spec fn first_match(rules: Seq<GttRule>, t: Title, from: int) -> Option<GttRule>
    decreases rules.len() - from,
{
    if from < 0 || from >= rules.len() {
        None
    } else if criteria_hold(rules[from].match_, t) {
        Some(rules[from])
    } else {
        first_match(rules, t, from + 1)
    }
}

fn field_ok(want: Option<u8>, have: Option<u8>) -> (r: bool)
    ensures
        r == field_matches(want, have),
{
    match want {
        Some(w) => match have {
            Some(h) => w == h,
            None => false,
        },
        None => true,
    }
}

/// Whether a rule matches a title.
pub fn rule_matches(rule: &GttRule, sel: &GttSelector) -> (r: bool)
    ensures
        r == criteria_hold(rule.match_, sel@),
{
    let m = &rule.match_;
    match &m.gt_prefix {
        Some(p) => {
            if !starts_with(sel.digits.as_str(), p.as_str()) {
                return false;
            }
        },
        None => {},
    }
    field_ok(m.gti, sel.gti) && field_ok(m.tt, sel.tt) && field_ok(m.np, sel.np) && field_ok(
        m.nai,
        sel.nai,
    )
}

/// A copy of an optional string.
pub fn copy_text(o: &Option<String>) -> (r: Option<String>)
    ensures
        r == *o,
{
    match o {
        Some(s) => Some(s.clone()),
        None => None,
    }
}

/// A copy of a route target.
pub fn copy_target(t: &RouteTarget) -> (r: RouteTarget)
    ensures
        r == *t,
{
    RouteTarget {
        dpc: t.dpc,
        ssn: t.ssn,
        group: copy_text(&t.group),
        local: t.local,
        tenant: copy_text(&t.tenant),
    }
}

fn copy_rule(rule: &GttRule) -> (r: GttRule)
    ensures
        r == *rule,
{
    GttRule {
        match_: GttMatch {
            gt_prefix: copy_text(&rule.match_.gt_prefix),
            gti: rule.match_.gti,
            tt: rule.match_.tt,
            np: rule.match_.np,
            nai: rule.match_.nai,
        },
        to: copy_target(&rule.to),
    }
}

/// The last group with this name.
pub open spec fn group_named(gs: Seq<GttGroup>, name: Seq<char>) -> Option<GttGroup>
    decreases gs.len(),
{
    if gs.len() == 0 {
        None
    } else if gs.last().name@ == name {
        Some(gs.last())
    } else {
        group_named(gs.drop_last(), name)
    }
}

/// The result of a route target, given the groups: a tenant first, then local
/// termination, then a group's next member, then the point code.
pub open spec fn target_result(groups: Map<Seq<char>, GroupState>, t: RouteTarget) -> Option<
    Translated,
> {
    let dpc: u32 = match t.dpc {
        Some(p) => p.0,
        None => 0,
    };
    let ssn: u8 = match t.ssn {
        Some(s) => s,
        None => 0,
    };
    if t.tenant is Some {
        Some(Translated::Tenant { tenant: t.tenant->Some_0@, dpc, ssn })
    } else if t.local == Some(true) {
        Some(Translated::Local)
    } else if t.group is Some {
        match picked(groups, t.group->Some_0@) {
            Some(a) => Some(Translated::Dpc { dpc: a.0, ssn: a.1 }),
            None => None,
        }
    } else if t.dpc is Some {
        Some(Translated::Dpc { dpc, ssn })
    } else {
        None
    }
}

/// What selecting from a named group gives.
pub open spec fn picked(groups: Map<Seq<char>, GroupState>, name: Seq<char>) -> Option<(u32, u8)> {
    if groups.contains_key(name) {
        groups[name].pick()
    } else {
        None
    }
}

/// The groups after selecting from a named one.
pub open spec fn after_selecting(groups: Map<Seq<char>, GroupState>, name: Seq<char>) -> Map<
    Seq<char>,
    GroupState,
> {
    if groups.contains_key(name) {
        groups.insert(name, groups[name].stepped())
    } else {
        groups
    }
}

/// The groups after resolving a route target: only a target that falls to a
/// group moves that group on.
pub open spec fn after_target(groups: Map<Seq<char>, GroupState>, t: RouteTarget) -> Map<
    Seq<char>,
    GroupState,
> {
    if t.tenant is None && t.local != Some(true) && t.group is Some {
        after_selecting(groups, t.group->Some_0@)
    } else {
        groups
    }
}

/// The compiled translation tables of one tenant.
#[derive(Debug)]
pub struct GttResolver {
    rules: Vec<GttRule>,
    groups: NameMap<GroupState>,
    local_ssns: Vec<u8>,
}

impl GttResolver {
    /// The rules in order.
    pub closed spec fn rule_list(&self) -> Seq<GttRule> {
        self.rules@
    }

    /// The groups by name.
    pub closed spec fn group_map(&self) -> Map<Seq<char>, GroupState> {
        self.groups@
    }

    /// The subsystems we own.
    pub closed spec fn owned(&self) -> Seq<u8> {
        self.local_ssns@
    }

    /// The tables are in order.
    pub closed spec fn wf(&self) -> bool {
        self.groups.wf()
    }

    /// The target of the first rule that matches a title.
    pub open spec fn matched(&self, t: Title) -> Option<RouteTarget> {
        match first_match(self.rule_list(), t, 0) {
            Some(rule) => Some(rule.to),
            None => None,
        }
    }

    /// What a title translates to: the result of the first rule that matches.
    pub open spec fn translation(&self, t: Title) -> Option<Translated> {
        match first_match(self.rule_list(), t, 0) {
            Some(rule) => target_result(self.group_map(), rule.to),
            None => None,
        }
    }

    /// The groups after translating a title.
    pub open spec fn groups_after(&self, t: Title) -> Map<Seq<char>, GroupState> {
        match first_match(self.rule_list(), t, 0) {
            Some(rule) => after_target(self.group_map(), rule.to),
            None => self.group_map(),
        }
    }

    /// These are the compiled tables of an SCCP block: its rules in order, its
    /// subsystems, and each of its groups at the start of its rotation.
    pub open spec fn compiled_from(&self, sccp: Sccp) -> bool {
        &&& self.rule_list() == sccp.gtt@
        &&& self.owned() == sccp.local_ssns@
        &&& forall|n: Seq<char>| #[trigger]
            self.group_map().contains_key(n) <==> group_named(sccp.gtt_groups@, n) is Some
        &&& forall|n: Seq<char>| #[trigger]
            self.group_map().contains_key(n) ==> {
                let g = group_named(sccp.gtt_groups@, n)->Some_0;
                let s = self.group_map()[n];
                s.mode == g.mode && s.members@ == group_addresses(g) && s.cursor == 0
            }
    }

    /// Compiles a tenant's SCCP block.
    pub fn compile(sccp: &Sccp) -> (r: GttResolver)
        ensures
            r.wf(),
            r.compiled_from(*sccp),
    {
        let mut rules: Vec<GttRule> = Vec::new();
        let mut i: usize = 0;
        while i < sccp.gtt.len()
            invariant
                i <= sccp.gtt@.len(),
                rules@ == sccp.gtt@.subrange(0, i as int),
            decreases sccp.gtt.len() - i,
        {
            rules.push(copy_rule(&sccp.gtt[i]));
            proof {
                assert(rules@ =~= sccp.gtt@.subrange(0, i + 1));
            }
            i += 1;
        }
        proof {
            assert(rules@ =~= sccp.gtt@);
        }
        let mut groups: NameMap<GroupState> = SortedMap::new();
        let mut i: usize = 0;
        while i < sccp.gtt_groups.len()
            invariant
                i <= sccp.gtt_groups@.len(),
                groups.wf(),
                forall|n: Seq<char>| #[trigger]
                    groups@.contains_key(n) <==> group_named(
                        sccp.gtt_groups@.subrange(0, i as int),
                        n,
                    ) is Some,
                forall|n: Seq<char>| #[trigger]
                    groups@.contains_key(n) ==> {
                        let g = group_named(sccp.gtt_groups@.subrange(0, i as int), n)->Some_0;
                        let s = groups@[n];
                        s.mode == g.mode && s.members@ == group_addresses(g) && s.cursor == 0
                    },
            decreases sccp.gtt_groups.len() - i,
        {
            let g = &sccp.gtt_groups[i];
            groups.insert(g.name.clone(), GroupState::from(g));
            proof {
                assert(sccp.gtt_groups@.subrange(0, i + 1).drop_last() =~= sccp.gtt_groups@.subrange(
                    0,
                    i as int,
                ));
            }
            i += 1;
        }
        proof {
            assert(sccp.gtt_groups@.subrange(0, i as int) =~= sccp.gtt_groups@);
        }
        let mut local_ssns: Vec<u8> = Vec::new();
        let mut i: usize = 0;
        while i < sccp.local_ssns.len()
            invariant
                i <= sccp.local_ssns@.len(),
                local_ssns@ == sccp.local_ssns@.subrange(0, i as int),
            decreases sccp.local_ssns.len() - i,
        {
            local_ssns.push(sccp.local_ssns[i]);
            proof {
                assert(local_ssns@ =~= sccp.local_ssns@.subrange(0, i + 1));
            }
            i += 1;
        }
        proof {
            assert(local_ssns@ =~= sccp.local_ssns@);
        }
        GttResolver { rules, groups, local_ssns }
    }

    /// Whether we own a subsystem.
    pub fn owns_ssn(&self, ssn: u8) -> (r: bool)
        ensures
            r == self.owned().contains(ssn),
    {
        let mut i: usize = 0;
        while i < self.local_ssns.len()
            invariant
                i <= self.local_ssns@.len(),
                forall|k: int| 0 <= k < i ==> self.local_ssns@[k] != ssn,
            decreases self.local_ssns.len() - i,
        {
            if self.local_ssns[i] == ssn {
                return true;
            }
            i += 1;
        }
        false
    }

    /// Translates a global title: the result of the first matching rule. `None`
    /// if no rule matches, or the matching rule's target gives nothing.
    pub fn translate(&mut self, sel: &GttSelector) -> (r: Option<GttResult>)
        requires
            old(self).wf(),
        ensures
            final(self).wf(),
            translated(r) == old(self).translation(sel@),
            final(self).group_map() == old(self).groups_after(sel@),
            final(self).rule_list() == old(self).rule_list(),
            final(self).owned() == old(self).owned(),
    {
        match self.matching(sel) {
            Some(target) => self.resolve_target(&target),
            None => None,
        }
    }

    /// The target of the first rule that matches a title.
    pub fn matching(&self, sel: &GttSelector) -> (r: Option<RouteTarget>)
        ensures
            r == self.matched(sel@),
    {
        let mut i: usize = 0;
        while i < self.rules.len()
            invariant
                i <= self.rules@.len(),
                first_match(self.rules@, sel@, 0) == first_match(self.rules@, sel@, i as int),
            decreases self.rules.len() - i,
        {
            if rule_matches(&self.rules[i], sel) {
                return Some(copy_target(&self.rules[i].to));
            }
            i += 1;
        }
        None
    }

    /// The fail-over list of a cost group.
    pub open spec fn cost_list(&self, group: Seq<char>) -> Option<Seq<(u32, u8)>> {
        if self.group_map().contains_key(group) && self.group_map()[group].mode
            == GroupMode::Cost {
            Some(self.group_map()[group].members@)
        } else {
            None
        }
    }

    /// The fail-over list of a cost group, primary first; `None` if the group is
    /// unknown or not in cost mode.
    pub fn group_cost_order(&self, group: &str) -> (r: Option<&Vec<(u32, u8)>>)
        requires
            self.wf(),
        ensures
            match r {
                Some(list) => self.cost_list(group@) == Some(list@),
                None => self.cost_list(group@) is None,
            },
    {
        match self.groups.lookup(group) {
            Some(g) => match g.mode {
                GroupMode::Cost => Some(&g.members),
                GroupMode::Share => None,
            },
            None => None,
        }
    }

    /// Picks an address from a named group: the primary in cost mode, the next in
    /// weighted round-robin in share mode. `None` if the group is unknown or
    /// empty.
    pub fn select_group(&mut self, group: &str) -> (r: Option<(u32, u8)>)
        requires
            old(self).wf(),
        ensures
            final(self).wf(),
            r == picked(old(self).group_map(), group@),
            final(self).group_map() == after_selecting(old(self).group_map(), group@),
            final(self).rule_list() == old(self).rule_list(),
            final(self).owned() == old(self).owned(),
    {
        match self.groups.get_mut(&group.to_owned()) {
            Some(g) => g.select(),
            None => None,
        }
    }

    /// Resolves a route target: a tenant first, then local termination, then a
    /// group's next member, then the point code.
    pub fn resolve_target(&mut self, target: &RouteTarget) -> (r: Option<GttResult>)
        requires
            old(self).wf(),
        ensures
            final(self).wf(),
            translated(r) == target_result(old(self).group_map(), *target),
            final(self).group_map() == after_target(old(self).group_map(), *target),
            final(self).rule_list() == old(self).rule_list(),
            final(self).owned() == old(self).owned(),
    {
        let dpc: u32 = match target.dpc {
            Some(p) => p.0,
            None => 0,
        };
        let ssn: u8 = match target.ssn {
            Some(s) => s,
            None => 0,
        };
        match &target.tenant {
            Some(t) => {
                return Some(GttResult::Tenant { tenant: t.clone(), dpc, ssn });
            },
            None => {},
        }
        let local = match target.local {
            Some(b) => b,
            None => false,
        };
        if local {
            return Some(GttResult::Local);
        }
        match &target.group {
            Some(g) => {
                return match self.select_group(g.as_str()) {
                    Some(a) => Some(GttResult::Dpc { dpc: a.0, ssn: a.1 }),
                    None => None,
                };
            },
            None => {},
        }
        if target.dpc.is_some() {
            Some(GttResult::Dpc { dpc, ssn })
        } else {
            None
        }
    }

    /// Puts a rule in front of all others, so that it wins over them.
    pub fn add_rule(&mut self, rule: GttRule)
        ensures
            final(self).rule_list() == seq![rule] + old(self).rule_list(),
            final(self).group_map() == old(self).group_map(),
            final(self).owned() == old(self).owned(),
            old(self).wf() ==> final(self).wf(),
    {
        let ghost before = self.rules@;
        self.rules.insert(0, rule);
        proof {
            assert(self.rules@ =~= seq![rule] + before);
        }
    }
}

} // verus!
