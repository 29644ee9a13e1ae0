//! The operations that a script can terminate, and the filters that name them.
use crate::content::operation::{code_of, operation_named, Operation};
use crate::python::error::{Refusal, SigtranError};
use crate::text::{chars_of, join3, same};
use vstd::prelude::*;
use vstd::string::*;

verus! {

/// Operations by kebab-case name, with their local codes.
pub type OpTable = Vec<(&'static str, i64)>;

/// What an [`OpTable`] holds.
pub open spec fn table_model(t: Seq<(&'static str, i64)>) -> Seq<(Seq<char>, i64)> {
    t.map_values(|p: (&'static str, i64)| (p.0@, p.1))
}

/// The MAP operations (TS 29.002) that can be terminated.
pub open spec fn map_operations() -> Seq<(Seq<char>, i64)> {
    seq![
        ("mo-forward-sm"@, 46i64),
        ("mt-forward-sm"@, 44i64),
        ("sri-sm"@, 45i64),
        ("report-sm-delivery-status"@, 47i64),
        ("ready-for-sm"@, 66i64),
        ("update-location"@, 2i64),
        ("cancel-location"@, 3i64),
        ("purge-ms"@, 67i64),
        ("send-auth-info"@, 56i64),
        ("provide-subscriber-info"@, 70i64),
    ]
}

/// The CAP operations (TS 29.078) that can be terminated.
pub open spec fn cap_operations() -> Seq<(Seq<char>, i64)> {
    seq![("initial-dp"@, 0i64), ("event-report-bcsm"@, 24i64)]
}

/// The INAP CS-1 operations (ITU-T Q.1218) that can be terminated.
pub open spec fn inap_operations() -> Seq<(Seq<char>, i64)> {
    seq![
        ("initial-dp"@, 0i64),
        ("event-report-bcsm"@, 24i64),
        ("apply-charging-report"@, 36i64),
        ("assist-request-instructions"@, 16i64),
        ("call-information-report"@, 44i64),
        ("specialized-resource-report"@, 49i64),
    ]
}

/// The MAP operations that can be terminated.
pub fn map_op_table() -> (r: OpTable)
    ensures
        table_model(r@) == map_operations(),
{
    let mut t: Vec<(&'static str, i64)> = Vec::new();
    t.push(("mo-forward-sm", 46));
    t.push(("mt-forward-sm", 44));
    t.push(("sri-sm", 45));
    t.push(("report-sm-delivery-status", 47));
    t.push(("ready-for-sm", 66));
    t.push(("update-location", 2));
    t.push(("cancel-location", 3));
    t.push(("purge-ms", 67));
    t.push(("send-auth-info", 56));
    t.push(("provide-subscriber-info", 70));
    proof {
        assert(table_model(t@) =~= map_operations());
    }
    t
}

/// The CAP operations that can be terminated.
pub fn cap_op_table() -> (r: OpTable)
    ensures
        table_model(r@) == cap_operations(),
{
    let mut t: Vec<(&'static str, i64)> = Vec::new();
    t.push(("initial-dp", 0));
    t.push(("event-report-bcsm", 24));
    proof {
        assert(table_model(t@) =~= cap_operations());
    }
    t
}

/// The INAP operations that can be terminated.
pub fn inap_op_table() -> (r: OpTable)
    ensures
        table_model(r@) == inap_operations(),
{
    let mut t: Vec<(&'static str, i64)> = Vec::new();
    t.push(("initial-dp", 0));
    t.push(("event-report-bcsm", 24));
    t.push(("apply-charging-report", 36));
    t.push(("assist-request-instructions", 16));
    t.push(("call-information-report", 44));
    t.push(("specialized-resource-report", 49));
    proof {
        assert(table_model(t@) =~= inap_operations());
    }
    t
}

/// The code of the first entry from `from` on with this name.
pub open spec fn code_in(t: Seq<(Seq<char>, i64)>, name: Seq<char>, from: int) -> Option<i64>
    decreases t.len() - from,
{
    if from < 0 || from >= t.len() {
        None
    } else if t[from].0 == name {
        Some(t[from].1)
    } else {
        code_in(t, name, from + 1)
    }
}

/// The code of an operation in a table.
pub fn find_code(table: &OpTable, name: &str) -> (r: Option<i64>)
    ensures
        r == code_in(table_model(table@), name@, 0),
{
    let ghost t = table_model(table@);
    let mut i: usize = 0;
    while i < table.len()
        invariant
            i <= table@.len(),
            t == table_model(table@),
            code_in(t, name@, 0) == code_in(t, name@, i as int),
        decreases table.len() - i,
    {
        let (n, code) = table[i];
        proof {
            assert(t[i as int] == (n@, code));
        }
        if same(n, name) {
            return Some(code);
        }
        i += 1;
    }
    None
}

/// The codes of a table, in order.
pub fn all_codes(table: &OpTable) -> (r: Vec<i64>)
    ensures
        r@ == table_model(table@).map_values(|p: (Seq<char>, i64)| p.1),
{
    let mut out: Vec<i64> = Vec::new();
    let mut i: usize = 0;
    while i < table.len()
        invariant
            i <= table@.len(),
            out@.len() == i,
            forall|k: int| 0 <= k < i ==> #[trigger] out@[k] == table@[k].1,
        decreases table.len() - i,
    {
        out.push(table[i].1);
        i += 1;
    }
    proof {
        assert(out@ =~= table_model(table@).map_values(|p: (Seq<char>, i64)| p.1));
    }
    out
}

/// The names of the first `n` operations of a table, separated by commas.
pub open spec fn names_of(t: Seq<(Seq<char>, i64)>, n: int) -> Seq<char>
    decreases n,
{
    if n <= 0 {
        Seq::empty()
    } else if n == 1 {
        t[0].0
    } else {
        names_of(t, n - 1) + ", "@ + t[n - 1].0
    }
}

/// The names of a table's operations.
pub open spec fn known_names(t: Seq<(Seq<char>, i64)>) -> Seq<char> {
    names_of(t, t.len() as int)
}

fn join_names(table: &OpTable) -> (r: String)
    ensures
        r@ == known_names(table_model(table@)),
{
    let ghost t = table_model(table@);
    let mut out = String::new();
    let mut i: usize = 0;
    proof {
        assert(out@ =~= names_of(t, 0));
    }
    while i < table.len()
        invariant
            i <= table@.len(),
            t == table_model(table@),
            out@ == names_of(t, i as int),
        decreases table.len() - i,
    {
        let n = table[i].0;
        proof {
            assert(t[i as int].0 == n@);
        }
        out = if i == 0 {
            n.to_owned()
        } else {
            join3(out.as_str(), ", ", n)
        };
        i += 1;
    }
    out
}

// ── Filters ─────────────────────────────────────────────────────────────────

/// A character is white space: it has the Unicode property `White_Space`.
pub open spec fn is_white(c: char) -> bool {
    ||| '\u{9}' <= c <= '\u{d}'
    ||| c == ' '
    ||| c == '\u{85}'
    ||| c == '\u{a0}'
    ||| c == '\u{1680}'
    ||| '\u{2000}' <= c <= '\u{200a}'
    ||| c == '\u{2028}'
    ||| c == '\u{2029}'
    ||| c == '\u{202f}'
    ||| c == '\u{205f}'
    ||| c == '\u{3000}'
}

fn white(c: char) -> (r: bool)
    ensures
        r == is_white(c),
{
    match c {
        '\u{9}'..='\u{d}' | ' ' | '\u{85}' | '\u{a0}' | '\u{1680}' => true,
        '\u{2000}'..='\u{200a}' | '\u{2028}' | '\u{2029}' | '\u{202f}' => true,
        '\u{205f}' | '\u{3000}' => true,
        _ => false,
    }
}

/// A text without leading white space.
pub open spec fn trim_front(s: Seq<char>) -> Seq<char>
    decreases s.len(),
{
    if s.len() > 0 && is_white(s[0]) {
        trim_front(s.drop_first())
    } else {
        s
    }
}

/// A text without trailing white space.
pub open spec fn trim_back(s: Seq<char>) -> Seq<char>
    decreases s.len(),
{
    if s.len() > 0 && is_white(s.last()) {
        trim_back(s.drop_last())
    } else {
        s
    }
}

/// A text without leading and trailing white space.
pub open spec fn trimmed(s: Seq<char>) -> Seq<char> {
    trim_back(trim_front(s))
}

/// The text of `s` from `from` to `to`, trimmed.
fn trim_range(s: &Vec<char>, from: usize, to: usize) -> (r: String)
    requires
        from <= to <= s@.len(),
    ensures
        r@ == trimmed(s@.subrange(from as int, to as int)),
{
    let mut a: usize = from;
    while a < to && white(s[a])
        invariant
            from <= a <= to <= s@.len(),
            trim_front(s@.subrange(from as int, to as int)) == trim_front(
                s@.subrange(a as int, to as int),
            ),
        ensures
            from <= a <= to <= s@.len(),
            trim_front(s@.subrange(from as int, to as int)) == s@.subrange(a as int, to as int),
        decreases to - a,
    {
        proof {
            assert(s@.subrange(a as int, to as int).drop_first() =~= s@.subrange(
                a + 1,
                to as int,
            ));
        }
        a += 1;
    }
    let mut b: usize = to;
    let ghost front = s@.subrange(a as int, to as int);
    while b > a && white(s[b - 1])
        invariant
            a <= b <= to <= s@.len(),
            front == s@.subrange(a as int, to as int),
            trim_back(front) == trim_back(s@.subrange(a as int, b as int)),
        ensures
            a <= b <= to <= s@.len(),
            trim_back(front) == s@.subrange(a as int, b as int),
        decreases b - a,
    {
        proof {
            assert(s@.subrange(a as int, b as int).drop_last() =~= s@.subrange(a as int, b - 1));
        }
        b -= 1;
    }
    let mut out = String::new();
    let mut i: usize = a;
    proof {
        assert(out@ =~= s@.subrange(a as int, a as int));
    }
    while i < b
        invariant
            a <= i <= b <= s@.len(),
            out@ == s@.subrange(a as int, i as int),
        decreases b - i,
    {
        out.push(s[i]);
        proof {
            assert(s@.subrange(a as int, i + 1) =~= s@.subrange(a as int, i as int).push(
                s@[i as int],
            ));
        }
        i += 1;
    }
    out
}

/// The position of the next `sep` in `s` from `from` on, or its end.
pub open spec fn next_separator(s: Seq<char>, sep: char, from: int) -> int
    decreases s.len() - from,
{
    if from >= s.len() || s[from] == sep {
        from
    } else {
        next_separator(s, sep, from + 1)
    }
}

proof fn separator_ahead(s: Seq<char>, sep: char, from: int)
    requires
        0 <= from <= s.len(),
    ensures
        from <= next_separator(s, sep, from) <= s.len(),
    decreases s.len() - from,
{
    if from < s.len() && s[from] != sep {
        separator_ahead(s, sep, from + 1);
    }
}

/// The names in a filter from `from` on: the pieces between bars, trimmed, without
/// those that are empty.
pub open spec fn names_from(s: Seq<char>, from: int) -> Seq<Seq<char>>
    decreases s.len() - from,
    when 0 <= from <= s.len()
    via names_from_ends
{
    let end = next_separator(s, '|', from);
    let name = trimmed(s.subrange(from, end));
    let rest = if end < s.len() {
        names_from(s, end + 1)
    } else {
        Seq::empty()
    };
    if name.len() == 0 {
        rest
    } else {
        seq![name] + rest
    }
}

#[via_fn]
proof fn names_from_ends(s: Seq<char>, from: int) {
    separator_ahead(s, '|', from);
}

/// The names in a filter.
pub open spec fn names_in(filter: Seq<char>) -> Seq<Seq<char>> {
    names_from(filter, 0)
}

/// The codes of some names, or the first name that the table does not have.
pub open spec fn codes_of(names: Seq<Seq<char>>, t: Seq<(Seq<char>, i64)>) -> Result<
    Seq<i64>,
    Seq<char>,
>
    decreases names.len(),
{
    if names.len() == 0 {
        Ok(Seq::empty())
    } else {
        match code_in(t, names[0], 0) {
            None => Err(names[0]),
            Some(code) => match codes_of(names.drop_first(), t) {
                Err(n) => Err(n),
                Ok(rest) => Ok(seq![code] + rest),
            },
        }
    }
}

/// What a filter comes to: the codes of its names in order, or a refusal for the
/// first name that the table does not have, or for naming nothing.
pub open spec fn filter_outcome(filter: Seq<char>, t: Seq<(Seq<char>, i64)>) -> Result<
    Seq<i64>,
    Refusal,
> {
    match codes_of(names_in(filter), t) {
        Err(name) => Err(Refusal::UnknownOperation { name, known: known_names(t) }),
        Ok(codes) => if codes.len() == 0 {
            Err(Refusal::EmptyFilter)
        } else {
            Ok(codes)
        },
    }
}

/// The outcome of resolving a filter.
pub open spec fn codes_outcome(r: Result<Vec<i64>, SigtranError>) -> Result<Seq<i64>, Refusal> {
    match r {
        Ok(v) => Ok(v@),
        Err(e) => Err(e@),
    }
}

proof fn codes_after_one(
    names: Seq<Seq<char>>,
    name: Seq<char>,
    rest: Seq<Seq<char>>,
    t: Seq<(Seq<char>, i64)>,
)
    requires
        names == seq![name] + rest,
    ensures
        codes_of(names, t) == match code_in(t, name, 0) {
            None => Err::<Seq<i64>, Seq<char>>(name),
            Some(code) => match codes_of(rest, t) {
                Err(n) => Err(n),
                Ok(c) => Ok(seq![code] + c),
            },
        },
{
    assert(names.drop_first() =~= rest);
}

/// Resolves a filter such as `a` or `a|b|c` to operation codes.
pub fn resolve_op_filter(filter: &str, table: &OpTable) -> (r: Result<Vec<i64>, SigtranError>)
    ensures
        codes_outcome(r) == filter_outcome(filter@, table_model(table@)),
{
    let s: Vec<char> = chars_of(filter);
    let ghost t = table_model(table@);
    let ghost all = codes_of(names_in(s@), t);
    let mut ops: Vec<i64> = Vec::new();
    let mut from: usize = 0;
    let mut more = true;
    proof {
        match codes_of(names_from(s@, 0), t) {
            Ok(c) => {
                assert(ops@ + c =~= c);
            },
            Err(_) => {},
        }
    }
    while more
        invariant
            t == table_model(table@),
            s@ == filter@,
            all == codes_of(names_in(s@), t),
            from <= s@.len(),
            all == match if more {
                codes_of(names_from(s@, from as int), t)
            } else {
                Ok(Seq::empty())
            } {
                Err(n) => Err::<Seq<i64>, Seq<char>>(n),
                Ok(c) => Ok(ops@ + c),
            },
        decreases s@.len() - from + if more {
            1int
        } else {
            0int
        },
    {
        let mut end: usize = from;
        proof {
            separator_ahead(s@, '|', from as int);
        }
        while end < s.len() && s[end] != '|'
            invariant
                from <= end <= s@.len(),
                next_separator(s@, '|', from as int) == next_separator(s@, '|', end as int),
            ensures
                from <= end <= s@.len(),
                end == next_separator(s@, '|', from as int),
            decreases s.len() - end,
        {
            end += 1;
        }
        let name = trim_range(&s, from, end);
        let ghost rest = if end < s@.len() {
            names_from(s@, end + 1)
        } else {
            Seq::<Seq<char>>::empty()
        };
        proof {
            reveal_strlit("");
            assert(name@.len() == 0 <==> name@ =~= ""@);
        }
        if same(name.as_str(), "") {
            proof {
                assert(names_from(s@, from as int) == rest);
            }
        } else {
            proof {
                codes_after_one(names_from(s@, from as int), name@, rest, t);
            }
            match find_code(table, name.as_str()) {
                Some(code) => {
                    let ghost before = ops@;
                    ops.push(code);
                    proof {
                        match codes_of(rest, t) {
                            Ok(c) => {
                                assert(before + (seq![code] + c) =~= ops@ + c);
                            },
                            Err(_) => {},
                        }
                    }
                },
                None => {
                    return Err(
                        SigtranError::UnknownOperation { name, known: join_names(table) },
                    );
                },
            }
        }
        if end < s.len() {
            from = end + 1;
        } else {
            from = end;
            more = false;
        }
    }
    proof {
        assert(ops@ + Seq::<i64>::empty() =~= ops@);
    }
    if ops.len() == 0 {
        return Err(SigtranError::EmptyFilter);
    }
    Ok(ops)
}

/// The code of an operation by name, over the MAP, CAP and INAP tables and then the
/// operations that content rules know.
pub open spec fn operation_code(name: Seq<char>) -> Option<i64> {
    match code_in(map_operations() + cap_operations() + inap_operations(), name, 0) {
        Some(c) => Some(c),
        None => match operation_named(name) {
            Some(op) => Some(code_of(op)),
            None => None,
        },
    }
}

/// Looking up in two tables one after the other is looking up in both.
proof fn lookup_in_both(
    a: Seq<(Seq<char>, i64)>,
    b: Seq<(Seq<char>, i64)>,
    name: Seq<char>,
    from: int,
)
    requires
        0 <= from <= a.len(),
    ensures
        code_in(a + b, name, from) == match code_in(a, name, from) {
            Some(c) => Some(c),
            None => code_in(b, name, 0),
        },
    decreases a.len() - from,
{
    if from < a.len() {
        assert((a + b)[from] == a[from]);
        lookup_in_both(a, b, name, from + 1);
    } else {
        shifted_lookup(a, b, name, 0);
    }
}

proof fn shifted_lookup(
    a: Seq<(Seq<char>, i64)>,
    b: Seq<(Seq<char>, i64)>,
    name: Seq<char>,
    from: int,
)
    requires
        0 <= from <= b.len(),
    ensures
        code_in(a + b, name, a.len() + from) == code_in(b, name, from),
    decreases b.len() - from,
{
    if from < b.len() {
        assert((a + b)[a.len() + from] == b[from]);
        shifted_lookup(a, b, name, from + 1);
    }
}

/// The code of an operation by name.
pub fn operation_op_code(name: &str) -> (r: Option<i64>)
    ensures
        r == operation_code(name@),
{
    proof {
        lookup_in_both(map_operations() + cap_operations(), inap_operations(), name@, 0);
        lookup_in_both(map_operations(), cap_operations(), name@, 0);
    }
    match find_code(&map_op_table(), name) {
        Some(c) => {
            return Some(c);
        },
        None => {},
    }
    match find_code(&cap_op_table(), name) {
        Some(c) => {
            return Some(c);
        },
        None => {},
    }
    match find_code(&inap_op_table(), name) {
        Some(c) => {
            return Some(c);
        },
        None => {},
    }
    match Operation::from_kebab(name) {
        Some(op) => Some(op.op_code()),
        None => None,
    }
}

/// Every operation that content rules know by name has one code, whichever table
/// it is looked up in: where a name stands in a table of its namespace too, the
/// codes agree.
pub proof fn law_one_vocabulary(op: Operation)
    ensures
        operation_code(crate::content::operation::kebab(op)) == Some(code_of(op)),
{
    reveal_strlit("mo-forward-sm");
    reveal_strlit("mt-forward-sm");
    reveal_strlit("sri-sm");
    reveal_strlit("report-sm-delivery-status");
    reveal_strlit("ready-for-sm");
    reveal_strlit("update-location");
    reveal_strlit("cancel-location");
    reveal_strlit("purge-ms");
    reveal_strlit("send-auth-info");
    reveal_strlit("provide-subscriber-info");
    reveal_strlit("initial-dp");
    reveal_strlit("event-report-bcsm");
    reveal_strlit("apply-charging-report");
    reveal_strlit("assist-request-instructions");
    reveal_strlit("call-information-report");
    reveal_strlit("specialized-resource-report");
    reveal_strlit("connect");
    reveal_strlit("insert-subscriber-data");
    assert("mo-forward-sm"@.len() == 13);
    assert("mt-forward-sm"@.len() == 13);
    assert("sri-sm"@.len() == 6);
    assert("report-sm-delivery-status"@.len() == 25);
    assert("ready-for-sm"@.len() == 12);
    assert("update-location"@.len() == 15);
    assert("cancel-location"@.len() == 15);
    assert("purge-ms"@.len() == 8);
    assert("send-auth-info"@.len() == 14);
    assert("provide-subscriber-info"@.len() == 23);
    assert("initial-dp"@.len() == 10);
    assert("event-report-bcsm"@.len() == 17);
    assert("apply-charging-report"@.len() == 21);
    assert("assist-request-instructions"@.len() == 27);
    assert("call-information-report"@.len() == 23);
    assert("specialized-resource-report"@.len() == 27);
    assert("connect"@.len() == 7);
    assert("insert-subscriber-data"@.len() == 22);
    assert("mo-forward-sm"@[1] == 'o');
    assert("mt-forward-sm"@[1] == 't');
    assert("update-location"@[0] == 'u');
    assert("cancel-location"@[0] == 'c');
    let name = crate::content::operation::kebab(op);
    lookup_in_both(map_operations() + cap_operations(), inap_operations(), name, 0);
    lookup_in_both(map_operations(), cap_operations(), name, 0);
    crate::content::operation::law_name_round_trip(op);
    reveal_with_fuel(code_in, 11);
    match op {
        Operation::Connect => {
            assert(code_in(map_operations(), name, 0) is None);
            assert(code_in(cap_operations(), name, 0) is None);
            assert(code_in(inap_operations(), name, 0) is None);
        },
        Operation::InsertSubscriberData => {
            assert(code_in(map_operations(), name, 0) is None);
            assert(code_in(cap_operations(), name, 0) is None);
            assert(code_in(inap_operations(), name, 0) is None);
        },
        Operation::InitialDp => {
            assert(code_in(map_operations(), name, 0) is None);
            assert(code_in(cap_operations(), name, 0) == Some(0i64));
        },
        _ => {
            assert(code_in(map_operations(), name, 0) == Some(code_of(op)));
        },
    }
}

} // verus!
