//! The content-routing engine: ordered rules over the decoded view.
use crate::config::{
    AddressTable, ContentAction, ContentMatch, ContentRouting, ContentRule, ImsiTable, RouteTarget,
};
use crate::content::operation::{operation_named, Operation};
use crate::content::view::{MapView, ViewModel};
use crate::sccp::gtt::{copy_target, copy_text};
use crate::sorted_map::{Key, NameMap, SortedMap};
use crate::text::{begins_with, same, starts_with};
use vstd::prelude::*;
use vstd::string::*;

verus! {

/// What a matched content rule does.
#[derive(Clone, Debug, PartialEq, Eq)]
pub enum Action {
    /// Route onward per the target, with an optional rewrite of the called-party
    /// digits applied first.
    Route { target: RouteTarget, rewrite_cdpa_gt: Option<String> },
    /// Drop the message.
    Screen,
    /// Defer to a named script hook.
    Python { hook: String },
}

/// The rule that matched and what it does.
#[derive(Clone, Debug, PartialEq, Eq)]
pub struct Hit {
    /// The name of the rule.
    pub rule: String,
    /// The action.
    pub action: Action,
}

/// The action of an action clause: a screen wins over a hook, a hook over a
/// route. A clause that names no target routes to the empty one, so that a
/// rewrite still applies.
pub open spec fn action_from(a: ContentAction) -> Action {
    if a.screen == Some(true) {
        Action::Screen
    } else if a.python is Some {
        Action::Python { hook: a.python->Some_0 }
    } else {
        Action::Route {
            target: match a.route {
                Some(t) => t,
                None => RouteTarget { dpc: None, ssn: None, group: None, local: None, tenant: None },
            },
            rewrite_cdpa_gt: a.rewrite_cdpa_gt,
        }
    }
}

/// The action of an action clause.
pub fn action_of(a: &ContentAction) -> (r: Action)
    ensures
        r == action_from(*a),
{
    let screen = match a.screen {
        Some(b) => b,
        None => false,
    };
    if screen {
        return Action::Screen;
    }
    match &a.python {
        Some(hook) => {
            return Action::Python { hook: hook.clone() };
        },
        None => {},
    }
    let target = match &a.route {
        Some(t) => copy_target(t),
        None => RouteTarget::default(),
    };
    Action::Route { target, rewrite_cdpa_gt: copy_text(&a.rewrite_cdpa_gt) }
}

// ── Compiled rules ──────────────────────────────────────────────────────────

/// The recognised operations among the first `n` names, in order.
pub open spec fn known_operations(names: Seq<Seq<char>>, n: int) -> Seq<Operation>
    decreases n,
{
    if n <= 0 {
        Seq::empty()
    } else {
        match operation_named(names[n - 1]) {
            Some(op) => known_operations(names, n - 1).push(op),
            None => known_operations(names, n - 1),
        }
    }
}

/// The operations a match clause names.
pub open spec fn operations_of(m: ContentMatch) -> Seq<Operation> {
    match m.operation {
        Some(ops) => known_operations(ops.values(), ops.values().len() as int),
        None => Seq::empty(),
    }
}

/// A rule ready for matching.
#[derive(Clone, Debug)]
pub struct CompiledRule {
    pub name: String,
    pub operations: Vec<Operation>,
    pub imsi_in: Option<String>,
    pub imsi_prefix: Option<String>,
    pub cdpa_gt_in: Option<String>,
    pub cgpa_gt_in: Option<String>,
    pub action: Action,
}

impl CompiledRule {
    /// This is the compiled form of a configured rule.
    pub open spec fn compiled_from(self, r: ContentRule) -> bool {
        &&& self.name == r.name
        &&& self.operations@ == operations_of(r.match_)
        &&& self.imsi_in == r.match_.imsi_in
        &&& self.imsi_prefix == r.match_.imsi_prefix
        &&& self.cdpa_gt_in == r.match_.cdpa_gt_in
        &&& self.cgpa_gt_in == r.match_.cgpa_gt_in
        &&& self.action == action_from(r.action)
    }

    /// Compiles a configured rule.
    pub fn from(r: &ContentRule) -> (c: CompiledRule)
        ensures
            c.compiled_from(*r),
    {
        let mut operations: Vec<Operation> = Vec::new();
        match &r.match_.operation {
            Some(ops) => {
                let names = ops.as_slice();
                let ghost texts = ops.values();
                let mut i: usize = 0;
                while i < names.len()
                    invariant
                        i <= names@.len(),
                        texts == names@.map_values(|s: &str| s@),
                        operations@ == known_operations(texts, i as int),
                    decreases names.len() - i,
                {
                    proof {
                        assert(texts[i as int] == names@[i as int]@);
                    }
                    match Operation::from_kebab(names[i]) {
                        Some(op) => {
                            operations.push(op);
                        },
                        None => {},
                    }
                    i += 1;
                }
            },
            None => {
                proof {
                    assert(operations@ =~= Seq::<Operation>::empty());
                }
            },
        }
        CompiledRule {
            name: r.name.clone(),
            operations,
            imsi_in: copy_text(&r.match_.imsi_in),
            imsi_prefix: copy_text(&r.match_.imsi_prefix),
            cdpa_gt_in: copy_text(&r.match_.cdpa_gt_in),
            cgpa_gt_in: copy_text(&r.match_.cgpa_gt_in),
            action: action_of(&r.action),
        }
    }
}

/// The tables of an engine: name to members.
pub type Tables = Map<Seq<char>, Vec<String>>;

/// Some member of the named table is a prefix of the text.
pub open spec fn prefix_in_table(tables: Tables, table: Seq<char>, text: Seq<char>) -> bool {
    tables.contains_key(table) && exists|i: int|
        0 <= i < tables[table]@.len() && begins_with(text, #[trigger] tables[table]@[i]@)
}

/// Some member of the named table is the text.
pub open spec fn member_of_table(tables: Tables, table: Seq<char>, text: Seq<char>) -> bool {
    tables.contains_key(table) && exists|i: int|
        0 <= i < tables[table]@.len() && #[trigger] tables[table]@[i]@ == text
}

/// All present criteria of a rule hold of a view; absent ones are wildcards. A
/// criterion on a field that the view lacks does not hold.
pub open spec fn rule_holds(
    r: CompiledRule,
    imsis: Tables,
    addresses: Tables,
    v: ViewModel,
) -> bool {
    &&& r.operations@.len() > 0 ==> (v.operation matches Some(op) && r.operations@.contains(op))
    &&& r.imsi_in matches Some(t) ==> (v.imsi matches Some(i) && prefix_in_table(imsis, t@, i))
    &&& r.imsi_prefix matches Some(p) ==> (v.imsi matches Some(i) && begins_with(i, p@))
    &&& r.cdpa_gt_in matches Some(t) ==> (v.cdpa_gt matches Some(g) && member_of_table(
        addresses,
        t@,
        g,
    ))
    &&& r.cgpa_gt_in matches Some(t) ==> (v.cgpa_gt matches Some(g) && member_of_table(
        addresses,
        t@,
        g,
    ))
}

/// The first rule from position `from` on that holds of a view.
pub open spec fn first_rule(
    rules: Seq<CompiledRule>,
    imsis: Tables,
    addresses: Tables,
    v: ViewModel,
    from: int,
) -> Option<CompiledRule>
    decreases rules.len() - from,
{
    if from < 0 || from >= rules.len() {
        None
    } else if rule_holds(rules[from], imsis, addresses, v) {
        Some(rules[from])
    } else {
        first_rule(rules, imsis, addresses, v, from + 1)
    }
}

/// The members of the last address table with this name.
pub open spec fn addresses_named(ts: Seq<AddressTable>, name: Seq<char>) -> Option<Vec<String>>
    decreases ts.len(),
{
    if ts.len() == 0 {
        None
    } else if ts.last().name@ == name {
        Some(ts.last().addrs)
    } else {
        addresses_named(ts.drop_last(), name)
    }
}

/// The members of the last IMSI table with this name.
pub open spec fn imsis_named(ts: Seq<ImsiTable>, name: Seq<char>) -> Option<Vec<String>>
    decreases ts.len(),
{
    if ts.len() == 0 {
        None
    } else if ts.last().name@ == name {
        Some(ts.last().prefixes)
    } else {
        imsis_named(ts.drop_last(), name)
    }
}

/// The texts of a list of strings.
pub open spec fn members(v: Vec<String>) -> Seq<Seq<char>> {
    v@.map_values(|s: String| s@)
}

fn copy_strings(v: &Vec<String>) -> (r: Vec<String>)
    ensures
        r@ == v@,
{
    let mut out: Vec<String> = Vec::new();
    let mut i: usize = 0;
    while i < v.len()
        invariant
            i <= v@.len(),
            out@ == v@.subrange(0, i as int),
        decreases v.len() - i,
    {
        out.push(v[i].clone());
        proof {
            assert(out@ =~= v@.subrange(0, i + 1));
        }
        i += 1;
    }
    proof {
        assert(out@ =~= v@);
    }
    out
}

fn contains_text(v: &Vec<String>, s: &str) -> (r: bool)
    ensures
        r == members(*v).contains(s@),
        r == exists|i: int| 0 <= i < v@.len() && #[trigger] v@[i]@ == s@,
{
    let mut i: usize = 0;
    while i < v.len()
        invariant
            i <= v@.len(),
            forall|k: int| 0 <= k < i ==> (#[trigger] v@[k])@ != s@,
        decreases v.len() - i,
    {
        if same(v[i].as_str(), s) {
            proof {
                assert(members(*v)[i as int] == s@);
            }
            return true;
        }
        i += 1;
    }
    proof {
        assert forall|k: int| 0 <= k < members(*v).len() implies members(*v)[k] != s@ by {
            assert(v@[k]@ != s@);
        }
    }
    false
}

fn some_prefix(v: &Vec<String>, s: &str) -> (r: bool)
    ensures
        r == exists|i: int| 0 <= i < v@.len() && begins_with(s@, #[trigger] v@[i]@),
{
    let mut i: usize = 0;
    while i < v.len()
        invariant
            i <= v@.len(),
            forall|k: int| 0 <= k < i ==> !begins_with(s@, #[trigger] v@[k]@),
        decreases v.len() - i,
    {
        if starts_with(s, v[i].as_str()) {
            return true;
        }
        i += 1;
    }
    false
}

fn holds_operation(v: &Vec<Operation>, op: Operation) -> (r: bool)
    ensures
        r == v@.contains(op),
{
    let mut i: usize = 0;
    while i < v.len()
        invariant
            i <= v@.len(),
            forall|k: int| 0 <= k < i ==> v@[k] != op,
        decreases v.len() - i,
    {
        if v[i] == op {
            return true;
        }
        i += 1;
    }
    false
}

/// A table with one more member, unless it is there already.
pub open spec fn with_member(v: Seq<Seq<char>>, s: Seq<char>) -> Seq<Seq<char>> {
    if v.contains(s) {
        v
    } else {
        v.push(s)
    }
}

/// The members of a named table, none if there is no such table.
pub open spec fn table_members(tables: Tables, name: Seq<char>) -> Seq<Seq<char>> {
    if tables.contains_key(name) {
        members(tables[name])
    } else {
        Seq::empty()
    }
}

/// Adds a member to a named table, creating the table if there is none.
fn add_member(tables: &mut NameMap<Vec<String>>, table: &str, s: &str)
    requires
        old(tables).wf(),
    ensures
        final(tables).wf(),
        final(tables)@.dom() == old(tables)@.dom().insert(table@),
        members(final(tables)@[table@]) == with_member(table_members(old(tables)@, table@), s@),
        forall|n: Seq<char>|
            n != table@ && old(tables)@.contains_key(n) ==> #[trigger] final(tables)@[n] == old(
                tables,
            )@[n],
{
    let ghost before = tables@;
    let mut list = match tables.lookup(table) {
        Some(v) => copy_strings(v),
        None => Vec::new(),
    };
    proof {
        assert(members(list) =~= table_members(before, table@));
    }
    if !contains_text(&list, s) {
        let ghost short = members(list);
        list.push(s.to_owned());
        proof {
            assert(members(list) =~= short.push(s@));
        }
    }
    tables.insert(table.to_owned(), list);
    proof {
        assert(tables@.dom() =~= before.dom().insert(table@));
    }
}

/// The compiled rules and the tables they refer to.
#[derive(Debug)]
pub struct ContentEngine {
    rules: Vec<CompiledRule>,
    address_tables: NameMap<Vec<String>>,
    imsi_tables: NameMap<Vec<String>>,
}

impl ContentEngine {
    /// The rules in order.
    pub closed spec fn rule_list(&self) -> Seq<CompiledRule> {
        self.rules@
    }

    /// The address tables by name.
    pub closed spec fn addresses(&self) -> Tables {
        self.address_tables@
    }

    /// The IMSI tables by name.
    pub closed spec fn imsis(&self) -> Tables {
        self.imsi_tables@
    }

    /// The tables are in order.
    pub closed spec fn wf(&self) -> bool {
        self.address_tables.wf() && self.imsi_tables.wf()
    }

    /// The rule that decides about a view: the first that holds.
    pub open spec fn deciding_rule(&self, v: ViewModel) -> Option<CompiledRule> {
        first_rule(self.rule_list(), self.imsis(), self.addresses(), v, 0)
    }

    /// This is the compiled form of a content-routing block: its rules in order,
    /// and its tables by name.
    pub open spec fn compiled_from(&self, cr: ContentRouting) -> bool {
        &&& self.rule_list().len() == cr.rules@.len()
        &&& forall|i: int|
            0 <= i < cr.rules@.len() ==> (#[trigger] self.rule_list()[i]).compiled_from(cr.rules@[i])
        &&& forall|n: Seq<char>| #[trigger]
            self.addresses().contains_key(n) <==> addresses_named(cr.address_tables@, n) is Some
        &&& forall|n: Seq<char>| #[trigger]
            self.addresses().contains_key(n) ==> self.addresses()[n]@ == addresses_named(
                cr.address_tables@,
                n,
            )->Some_0@
        &&& forall|n: Seq<char>| #[trigger]
            self.imsis().contains_key(n) <==> imsis_named(cr.imsi_tables@, n) is Some
        &&& forall|n: Seq<char>| #[trigger]
            self.imsis().contains_key(n) ==> self.imsis()[n]@ == imsis_named(
                cr.imsi_tables@,
                n,
            )->Some_0@
    }

    /// Compiles a content-routing block.
    pub fn compile(cr: &ContentRouting) -> (r: ContentEngine)
        ensures
            r.wf(),
            r.compiled_from(*cr),
    {
        let mut address_tables: NameMap<Vec<String>> = SortedMap::new();
        let mut i: usize = 0;
        while i < cr.address_tables.len()
            invariant
                i <= cr.address_tables@.len(),
                address_tables.wf(),
                forall|n: Seq<char>| #[trigger]
                    address_tables@.contains_key(n) <==> addresses_named(
                        cr.address_tables@.subrange(0, i as int),
                        n,
                    ) is Some,
                forall|n: Seq<char>| #[trigger]
                    address_tables@.contains_key(n) ==> address_tables@[n]@ == addresses_named(
                        cr.address_tables@.subrange(0, i as int),
                        n,
                    )->Some_0@,
            decreases cr.address_tables.len() - i,
        {
            let t = &cr.address_tables[i];
            address_tables.insert(t.name.clone(), copy_strings(&t.addrs));
            proof {
                assert(cr.address_tables@.subrange(0, i + 1).drop_last()
                    =~= cr.address_tables@.subrange(0, i as int));
            }
            i += 1;
        }
        proof {
            assert(cr.address_tables@.subrange(0, i as int) =~= cr.address_tables@);
        }
        let mut imsi_tables: NameMap<Vec<String>> = SortedMap::new();
        let mut i: usize = 0;
        while i < cr.imsi_tables.len()
            invariant
                i <= cr.imsi_tables@.len(),
                imsi_tables.wf(),
                forall|n: Seq<char>| #[trigger]
                    imsi_tables@.contains_key(n) <==> imsis_named(
                        cr.imsi_tables@.subrange(0, i as int),
                        n,
                    ) is Some,
                forall|n: Seq<char>| #[trigger]
                    imsi_tables@.contains_key(n) ==> imsi_tables@[n]@ == imsis_named(
                        cr.imsi_tables@.subrange(0, i as int),
                        n,
                    )->Some_0@,
            decreases cr.imsi_tables.len() - i,
        {
            let t = &cr.imsi_tables[i];
            imsi_tables.insert(t.name.clone(), copy_strings(&t.prefixes));
            proof {
                assert(cr.imsi_tables@.subrange(0, i + 1).drop_last() =~= cr.imsi_tables@.subrange(
                    0,
                    i as int,
                ));
            }
            i += 1;
        }
        proof {
            assert(cr.imsi_tables@.subrange(0, i as int) =~= cr.imsi_tables@);
        }
        let mut rules: Vec<CompiledRule> = Vec::new();
        let mut i: usize = 0;
        while i < cr.rules.len()
            invariant
                i <= cr.rules@.len(),
                rules@.len() == i,
                forall|k: int| 0 <= k < i ==> (#[trigger] rules@[k]).compiled_from(cr.rules@[k]),
            decreases cr.rules.len() - i,
        {
            rules.push(CompiledRule::from(&cr.rules[i]));
            i += 1;
        }
        ContentEngine { rules, address_tables, imsi_tables }
    }

    /// An engine with no rules and no tables.
    pub fn empty() -> (r: ContentEngine)
        ensures
            r.wf(),
            r.rule_list() == Seq::<CompiledRule>::empty(),
            r.addresses() == Map::<Seq<char>, Vec<String>>::empty(),
            r.imsis() == Map::<Seq<char>, Vec<String>>::empty(),
    {
        let r = ContentEngine {
            rules: Vec::new(),
            address_tables: SortedMap::new(),
            imsi_tables: SortedMap::new(),
        };
        proof {
            assert(r.rules@ =~= Seq::<CompiledRule>::empty());
        }
        r
    }

    /// Puts a rule in front of all others, so that it wins over them.
    pub fn add_rule(&mut self, rule: &ContentRule)
        ensures
            final(self).rule_list().len() == old(self).rule_list().len() + 1,
            final(self).rule_list()[0].compiled_from(*rule),
            final(self).rule_list().drop_first() == old(self).rule_list(),
            final(self).addresses() == old(self).addresses(),
            final(self).imsis() == old(self).imsis(),
            old(self).wf() ==> final(self).wf(),
    {
        let ghost before = self.rules@;
        self.rules.insert(0, CompiledRule::from(rule));
        proof {
            assert(self.rules@.drop_first() =~= before);
        }
    }

    /// Adds digits to an address table, creating the table if there is none. It
    /// changes nothing if they are there already.
    pub fn address_table_add(&mut self, table: &str, addr: &str)
        requires
            old(self).wf(),
        ensures
            final(self).wf(),
            final(self).rule_list() == old(self).rule_list(),
            final(self).imsis() == old(self).imsis(),
            final(self).addresses().dom() == old(self).addresses().dom().insert(table@),
            members(final(self).addresses()[table@]) == with_member(
                table_members(old(self).addresses(), table@),
                addr@,
            ),
            forall|n: Seq<char>|
                n != table@ && old(self).addresses().contains_key(n)
                    ==> #[trigger] final(self).addresses()[n] == old(self).addresses()[n],
    {
        add_member(&mut self.address_tables, table, addr);
    }

    /// Adds a prefix to an IMSI table, creating the table if there is none. It
    /// changes nothing if it is there already.
    pub fn imsi_table_add(&mut self, table: &str, prefix: &str)
        requires
            old(self).wf(),
        ensures
            final(self).wf(),
            final(self).rule_list() == old(self).rule_list(),
            final(self).addresses() == old(self).addresses(),
            final(self).imsis().dom() == old(self).imsis().dom().insert(table@),
            members(final(self).imsis()[table@]) == with_member(
                table_members(old(self).imsis(), table@),
                prefix@,
            ),
            forall|n: Seq<char>|
                n != table@ && old(self).imsis().contains_key(n)
                    ==> #[trigger] final(self).imsis()[n] == old(self).imsis()[n],
    {
        add_member(&mut self.imsi_tables, table, prefix);
    }

    /// Whether there is any rule.
    pub fn has_rules(&self) -> (r: bool)
        ensures
            r == (self.rule_list().len() > 0),
    {
        self.rules.len() > 0
    }

    /// Evaluates the rules against a view: the first that holds wins.
    pub fn evaluate(&self, view: &MapView) -> (r: Option<Hit>)
        requires
            self.wf(),
        ensures
            match self.deciding_rule(view@) {
                Some(rule) => r matches Some(h) && h.rule == rule.name && h.action == rule.action,
                None => r is None,
            },
    {
        let mut i: usize = 0;
        while i < self.rules.len()
            invariant
                i <= self.rules@.len(),
                self.wf(),
                self.deciding_rule(view@) == first_rule(
                    self.rule_list(),
                    self.imsis(),
                    self.addresses(),
                    view@,
                    i as int,
                ),
            decreases self.rules.len() - i,
        {
            let rule = &self.rules[i];
            if self.matches(rule, view) {
                return Some(Hit { rule: rule.name.clone(), action: copy_action(&rule.action) });
            }
            i += 1;
        }
        None
    }

    fn matches(&self, rule: &CompiledRule, view: &MapView) -> (r: bool)
        requires
            self.wf(),
        ensures
            r == rule_holds(*rule, self.imsis(), self.addresses(), view@),
    {
        if rule.operations.len() > 0 {
            match view.operation {
                Some(op) => {
                    if !holds_operation(&rule.operations, op) {
                        return false;
                    }
                },
                None => {
                    return false;
                },
            }
        }
        match &rule.imsi_in {
            Some(table) => {
                match &view.imsi {
                    Some(imsi) => {
                        if !self.imsi_in_table(table.as_str(), imsi.as_str()) {
                            return false;
                        }
                    },
                    None => {
                        return false;
                    },
                }
            },
            None => {},
        }
        match &rule.imsi_prefix {
            Some(prefix) => {
                match &view.imsi {
                    Some(imsi) => {
                        if !starts_with(imsi.as_str(), prefix.as_str()) {
                            return false;
                        }
                    },
                    None => {
                        return false;
                    },
                }
            },
            None => {},
        }
        match &rule.cdpa_gt_in {
            Some(table) => {
                match &view.cdpa_gt {
                    Some(gt) => {
                        if !self.gt_in_table(table.as_str(), gt.as_str()) {
                            return false;
                        }
                    },
                    None => {
                        return false;
                    },
                }
            },
            None => {},
        }
        match &rule.cgpa_gt_in {
            Some(table) => {
                match &view.cgpa_gt {
                    Some(gt) => {
                        if !self.gt_in_table(table.as_str(), gt.as_str()) {
                            return false;
                        }
                    },
                    None => {
                        return false;
                    },
                }
            },
            None => {},
        }
        true
    }

    fn imsi_in_table(&self, table: &str, imsi: &str) -> (r: bool)
        requires
            self.wf(),
        ensures
            r == prefix_in_table(self.imsis(), table@, imsi@),
    {
        match self.imsi_tables.lookup(table) {
            Some(prefixes) => some_prefix(prefixes, imsi),
            None => false,
        }
    }

    fn gt_in_table(&self, table: &str, gt: &str) -> (r: bool)
        requires
            self.wf(),
        ensures
            r == member_of_table(self.addresses(), table@, gt@),
    {
        match self.address_tables.lookup(table) {
            Some(addrs) => contains_text(addrs, gt),
            None => false,
        }
    }
}

/// A copy of an action.
pub fn copy_action(a: &Action) -> (r: Action)
    ensures
        r == *a,
{
    match a {
        Action::Route { target, rewrite_cdpa_gt } => Action::Route {
            target: copy_target(target),
            rewrite_cdpa_gt: copy_text(rewrite_cdpa_gt),
        },
        Action::Screen => Action::Screen,
        Action::Python { hook } => Action::Python { hook: hook.clone() },
    }
}

proof fn first_rule_shift(
    rules: Seq<CompiledRule>,
    imsis: Tables,
    addresses: Tables,
    v: ViewModel,
    from: int,
)
    requires
        0 <= from,
        rules.len() > 0,
    ensures
        first_rule(rules, imsis, addresses, v, from + 1) == first_rule(
            rules.drop_first(),
            imsis,
            addresses,
            v,
            from,
        ),
    decreases rules.len() - from,
{
    let rest = rules.drop_first();
    if from < rest.len() {
        assert(rules[from + 1] == rest[from]);
        first_rule_shift(rules, imsis, addresses, v, from + 1);
    }
}

/// A rule put in front of the others decides wherever it holds, and changes
/// nothing where it does not.
pub proof fn law_added_rule_wins(
    rules: Seq<CompiledRule>,
    imsis: Tables,
    addresses: Tables,
    v: ViewModel,
)
    requires
        rules.len() > 0,
    ensures
        rule_holds(rules[0], imsis, addresses, v) ==> first_rule(rules, imsis, addresses, v, 0)
            == Some(rules[0]),
        !rule_holds(rules[0], imsis, addresses, v) ==> first_rule(rules, imsis, addresses, v, 0)
            == first_rule(rules.drop_first(), imsis, addresses, v, 0),
{
    first_rule_shift(rules, imsis, addresses, v, 0);
}

/// Adding a member to a table twice is adding it once.
pub proof fn law_table_add_is_idempotent(v: Seq<Seq<char>>, s: Seq<char>)
    ensures
        with_member(with_member(v, s), s) == with_member(v, s),
        with_member(v, s).contains(s),
{
    if !v.contains(s) {
        assert(v.push(s)[v.len() as int] == s);
    }
}

} // verus!
