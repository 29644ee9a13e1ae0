//! Conversion between E.214 mobile global titles and E.164 numbers.
//!
//! Roaming traffic addresses an HLR with an E.214 mobile global title. The
//! converter replaces the leading country and network code of such a title by the
//! network's E.164 prefix, and the reverse, keeping the subscriber's own digits.
use crate::config::{GtConversion, PlmnMapEntry};
use crate::sorted_map::{Key, NameMap, SortedMap};
use crate::text::{begins_with, join2, starts_with};
use vstd::prelude::*;
use vstd::string::*;

verus! {

/// A network: its E.164 prefix, and its country code and network code
/// concatenated.
pub type Network = (Seq<char>, Seq<char>);

/// The networks of a map, in order.
pub open spec fn networks_of(es: Seq<PlmnMapEntry>) -> Seq<Network> {
    es.map_values(|e: PlmnMapEntry| (e.e164_prefix@, e.mcc@ + e.mnc@))
}

/// The E.164 prefix of each network, from the first `n` entries. A later entry
/// for the same network replaces an earlier one.
pub open spec fn prefix_table(es: Seq<Network>, n: int) -> Map<Seq<char>, Seq<char>>
    decreases n,
{
    if n <= 0 {
        Map::empty()
    } else {
        prefix_table(es, n - 1).insert(es[n - 1].1, es[n - 1].0)
    }
}

/// `k` is the longest key of the table that the digits begin with.
pub open spec fn longest_key(
    table: Map<Seq<char>, Seq<char>>,
    digits: Seq<char>,
    k: Seq<char>,
) -> bool {
    &&& table.contains_key(k)
    &&& begins_with(digits, k)
    &&& forall|o: Seq<char>| #[trigger]
        table.contains_key(o) && begins_with(digits, o) ==> o.len() <= k.len()
}

/// The digits with a leading `old_prefix` replaced.
pub open spec fn swapped(digits: Seq<char>, old_prefix: Seq<char>, new_prefix: Seq<char>) -> Seq<
    char,
> {
    new_prefix + digits.subrange(old_prefix.len() as int, digits.len() as int)
}

/// The E.164 number of an E.214 title: the longest known network code that it
/// begins with is replaced by that network's E.164 prefix.
pub open spec fn to_e164(table: Map<Seq<char>, Seq<char>>, digits: Seq<char>) -> Option<Seq<char>> {
    if exists|k: Seq<char>| longest_key(table, digits, k) {
        let k = choose|k: Seq<char>| longest_key(table, digits, k);
        Some(swapped(digits, k, table[k]))
    } else {
        None
    }
}

/// Entry `i` has the longest E.164 prefix that the digits begin with; among
/// equals it is the first.
pub open spec fn longest_prefix(es: Seq<Network>, digits: Seq<char>, i: int) -> bool {
    &&& 0 <= i < es.len()
    &&& begins_with(digits, es[i].0)
    &&& forall|j: int|
        0 <= j < es.len() && begins_with(digits, (#[trigger] es[j]).0)
            ==> es[j].0.len() < es[i].0.len() || (es[j].0.len()
            == es[i].0.len() && i <= j)
}

/// The E.214 title of an E.164 number: the longest known prefix that it begins
/// with is replaced by that network's country and network code.
pub open spec fn to_e214(es: Seq<Network>, digits: Seq<char>) -> Option<Seq<char>> {
    if exists|i: int| longest_prefix(es, digits, i) {
        let i = choose|i: int| longest_prefix(es, digits, i);
        Some(swapped(digits, es[i].0, es[i].1))
    } else {
        None
    }
}

/// The text of an optional string.
pub open spec fn opt_text(o: Option<String>) -> Option<Seq<char>> {
    match o {
        Some(s) => Some(s@),
        None => None,
    }
}

/// At most one key is the longest.
proof fn longest_key_unique(
    table: Map<Seq<char>, Seq<char>>,
    digits: Seq<char>,
    a: Seq<char>,
    b: Seq<char>,
)
    requires
        longest_key(table, digits, a),
        longest_key(table, digits, b),
    ensures
        a == b,
{
    assert(a.len() == b.len());
    assert(digits.subrange(0, a.len() as int) == a);
    assert(digits.subrange(0, b.len() as int) == b);
}

/// At most one entry has the longest prefix.
proof fn longest_prefix_unique(es: Seq<Network>, digits: Seq<char>, a: int, b: int)
    requires
        longest_prefix(es, digits, a),
        longest_prefix(es, digits, b),
    ensures
        a == b,
{
    assert(begins_with(digits, es[a].0));
    assert(begins_with(digits, es[b].0));
}

/// The converter of one tenant.
#[derive(Clone, Debug)]
pub struct GtConverter {
    /// E.164 prefix by network code.
    prefixes: NameMap<String>,
    /// The entries in configuration order: E.164 prefix and network code.
    entries: Vec<(String, String)>,
}

impl GtConverter {
    /// The networks this converter knows, in order.
    pub closed spec fn networks(&self) -> Seq<Network> {
        self.entries@.map_values(|e: (String, String)| (e.0@, e.1@))
    }

    /// E.164 prefix by network code.
    pub open spec fn table(&self) -> Map<Seq<char>, Seq<char>> {
        prefix_table(self.networks(), self.networks().len() as int)
    }

    /// The tables agree with the entries.
    pub closed spec fn wf(&self) -> bool {
        &&& self.prefixes.wf()
        &&& forall|k: Seq<char>| #[trigger]
            self.prefixes@.contains_key(k) == self.table().contains_key(k)
        &&& forall|k: Seq<char>| #[trigger]
            self.prefixes@.contains_key(k) ==> self.prefixes@[k]@ == self.table()[k]
    }

    /// Builds the converter from a conversion block.
    pub fn from(conv: &GtConversion) -> (r: GtConverter)
        ensures
            r.wf(),
            r.networks() == networks_of(conv.plmn_map@),
    {
        let mut prefixes: NameMap<String> = SortedMap::new();
        let mut entries: Vec<(String, String)> = Vec::new();
        let ghost es = networks_of(conv.plmn_map@);
        let mut i: usize = 0;
        while i < conv.plmn_map.len()
            invariant
                es == networks_of(conv.plmn_map@),
                i <= conv.plmn_map@.len(),
                prefixes.wf(),
                forall|k: Seq<char>| #[trigger]
                    prefixes@.contains_key(k) == prefix_table(
                        es,
                        i as int,
                    ).contains_key(k),
                forall|k: Seq<char>| #[trigger]
                    prefixes@.contains_key(k) ==> prefixes@[k]@ == prefix_table(
                        es,
                        i as int,
                    )[k],
                entries@.len() == i,
                forall|j: int|
                    0 <= j < i ==> (#[trigger] entries@[j]).0@ == es[j].0
                        && entries@[j].1@ == es[j].1,
            decreases conv.plmn_map.len() - i,
        {
            let e = &conv.plmn_map[i];
            let plmn = join2(e.mcc.as_str(), e.mnc.as_str());
            prefixes.insert(plmn.clone(), e.e164_prefix.clone());
            entries.push((e.e164_prefix.clone(), plmn));
            i += 1;
        }
        proof {
            assert(entries@.map_values(|e: (String, String)| (e.0@, e.1@)) =~= es);
        }
        GtConverter { prefixes, entries }
    }

    /// Inbound, E.214 to E.164: the leading network code is replaced by the
    /// network's E.164 prefix and the rest kept. The longest network code wins.
    /// `None` if the digits begin with no known network code.
    pub fn e214_to_e164(&self, digits: &str) -> (r: Option<String>)
        requires
            self.wf(),
        ensures
            opt_text(r) == to_e164(self.table(), digits@),
    {
        let mut best: Option<usize> = None;
        let mut i: usize = 0;
        let n: usize = self.prefixes.len();
        while i < n
            invariant
                i <= n == self.prefixes.size(),
                self.wf(),
                best matches Some(b) ==> b < i && begins_with(
                    digits@,
                    self.prefixes.key_at(b as int),
                ) && forall|j: int|
                    0 <= j < i && begins_with(digits@, #[trigger] self.prefixes.key_at(j))
                        ==> self.prefixes.key_at(j).len() <= self.prefixes.key_at(b as int).len(),
                best is None ==> forall|j: int|
                    0 <= j < i ==> !begins_with(digits@, #[trigger] self.prefixes.key_at(j)),
            decreases n - i,
        {
            let key = self.prefixes.key(i);
            if starts_with(digits, key.as_str()) {
                match best {
                    Some(b) => {
                        if self.prefixes.key(b).as_str().unicode_len()
                            < key.as_str().unicode_len() {
                            best = Some(i);
                        }
                    },
                    None => {
                        best = Some(i);
                    },
                }
            }
            i += 1;
        }
        match best {
            Some(b) => {
                let ghost k = self.prefixes.key_at(b as int);
                proof {
                    self.prefixes.lemma_entry(b as int);
                    assert forall|o: Seq<char>| #[trigger]
                        self.table().contains_key(o) && begins_with(digits@, o) implies o.len()
                        <= k.len() by {
                        assert(self.prefixes@.contains_key(o));
                        assert(self.prefixes.has(o));
                        assert(begins_with(digits@, self.prefixes.key_at(self.prefixes.place(o))));
                    }
                    assert(longest_key(self.table(), digits@, k));
                    longest_key_unique(
                        self.table(),
                        digits@,
                        k,
                        choose|x: Seq<char>| longest_key(self.table(), digits@, x),
                    );
                }
                let from: usize = self.prefixes.key(b).as_str().unicode_len();
                let msin = digits.substring_char(from, digits.unicode_len());
                Some(join2(self.prefixes.value(b).as_str(), msin))
            },
            None => {
                proof {
                    assert forall|o: Seq<char>| !longest_key(self.table(), digits@, o) by {
                        if self.table().contains_key(o) {
                            assert(self.prefixes@.contains_key(o));
                            assert(self.prefixes.has(o));
                            assert(!begins_with(
                                digits@,
                                self.prefixes.key_at(self.prefixes.place(o)),
                            ));
                        }
                    }
                }
                None
            },
        }
    }

    /// Outbound, E.164 to E.214: the leading E.164 prefix is replaced by the
    /// network's country and network code and the rest kept. The longest prefix
    /// wins.
    pub fn e164_to_e214(&self, digits: &str) -> (r: Option<String>)
        requires
            self.wf(),
        ensures
            opt_text(r) == to_e214(self.networks(), digits@),
    {
        let ghost es = self.networks();
        let mut best: Option<usize> = None;
        let mut i: usize = 0;
        while i < self.entries.len()
            invariant
                i <= self.entries@.len(),
                self.wf(),
                es == self.networks(),
                best matches Some(b) ==> b < i && begins_with(digits@, es[b as int].0)
                    && forall|j: int|
                    0 <= j < i && begins_with(digits@, (#[trigger] es[j]).0)
                        ==> es[j].0.len() < es[b as int].0.len() || (
                    es[j].0.len() == es[b as int].0.len() && b <= j),
                best is None ==> forall|j: int|
                    0 <= j < i ==> !begins_with(digits@, (#[trigger] es[j]).0),
            decreases self.entries.len() - i,
        {
            proof {
                assert(es[i as int] == (self.entries@[i as int].0@, self.entries@[i as int].1@));
            }
            let prefix = self.entries[i].0.as_str();
            if starts_with(digits, prefix) {
                match best {
                    Some(b) => {
                        proof {
                            assert(es[b as int] == (self.entries@[b as int].0@, self.entries@[b as int].1@));
                        }
                        if self.entries[b].0.as_str().unicode_len() < prefix.unicode_len() {
                            best = Some(i);
                        }
                    },
                    None => {
                        best = Some(i);
                    },
                }
            }
            i += 1;
        }
        match best {
            Some(b) => {
                proof {
                    assert(es[b as int] == (self.entries@[b as int].0@, self.entries@[b as int].1@));
                    assert(longest_prefix(es, digits@, b as int));
                    longest_prefix_unique(
                        es,
                        digits@,
                        b as int,
                        choose|x: int| longest_prefix(es, digits@, x),
                    );
                }
                let from: usize = self.entries[b].0.as_str().unicode_len();
                let msin = digits.substring_char(from, digits.unicode_len());
                Some(join2(self.entries[b].1.as_str(), msin))
            },
            None => None,
        }
    }
}

/// No E.164 prefix of the map is a prefix of another entry's.
pub open spec fn prefix_free(es: Seq<Network>) -> bool {
    forall|i: int, j: int|
        0 <= i < es.len() && 0 <= j < es.len() && i != j ==> !begins_with(
            (#[trigger] es[i]).0,
            (#[trigger] es[j]).0,
        )
}

proof fn table_entry(es: Seq<Network>, n: int, k: Seq<char>) -> (i: int)
    requires
        0 <= n <= es.len(),
        prefix_table(es, n).contains_key(k),
    ensures
        0 <= i < n,
        es[i].1 == k,
        es[i].0 == prefix_table(es, n)[k],
    decreases n,
{
    if es[n - 1].1 == k {
        n - 1
    } else {
        table_entry(es, n - 1, k)
    }
}

/// Two prefixes of the same digits: the shorter one is a prefix of the longer.
proof fn prefixes_nest(digits: Seq<char>, a: Seq<char>, b: Seq<char>)
    requires
        begins_with(digits, a),
        begins_with(digits, b),
        a.len() <= b.len(),
    ensures
        begins_with(b, a),
{
    assert forall|i: int| 0 <= i < a.len() implies b.subrange(0, a.len() as int)[i] == a[i] by {
        assert(digits.subrange(0, a.len() as int)[i] == digits[i]);
        assert(digits.subrange(0, b.len() as int)[i] == digits[i]);
    }
    assert(b.subrange(0, a.len() as int) =~= a);
}

/// Converting an E.214 title to E.164 and back gives the title again, for a map
/// whose E.164 prefixes do not overlap.
pub proof fn law_conversion_round_trip(es: Seq<Network>, digits: Seq<char>)
    requires
        prefix_free(es),
        to_e164(prefix_table(es, es.len() as int), digits) is Some,
    ensures
        to_e214(es, to_e164(prefix_table(es, es.len() as int), digits)->Some_0) == Some(digits),
{
    let table = prefix_table(es, es.len() as int);
    let k = choose|k: Seq<char>| longest_key(table, digits, k);
    let i = table_entry(es, es.len() as int, k);
    let p = es[i].0;
    let e164 = swapped(digits, k, p);
    assert(e164.subrange(0, p.len() as int) =~= p);
    assert(begins_with(e164, p));
    assert forall|j: int| 0 <= j < es.len() && begins_with(e164, (#[trigger] es[j]).0) implies j
        == i by {
        if j != i {
            let q = es[j].0;
            if q.len() <= p.len() {
                prefixes_nest(e164, q, p);
                assert(!begins_with(es[i].0, es[j].0));
            } else {
                prefixes_nest(e164, p, q);
                assert(!begins_with(es[j].0, es[i].0));
            }
        }
    }
    assert(longest_prefix(es, e164, i));
    longest_prefix_unique(es, e164, i, choose|x: int| longest_prefix(es, e164, x));
    assert(swapped(e164, p, es[i].1) =~= digits) by {
        assert(digits.subrange(0, k.len() as int) == k);
        assert(e164.subrange(p.len() as int, e164.len() as int) =~= digits.subrange(
            k.len() as int,
            digits.len() as int,
        ));
        assert(digits =~= digits.subrange(0, k.len() as int) + digits.subrange(
            k.len() as int,
            digits.len() as int,
        ));
    }
}

} // verus!
