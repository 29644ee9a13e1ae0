//! Text helpers: comparison, ordering, prefixes, concatenation and decimal
//! rendering of strings, each stated over the string's sequence of characters.
use vstd::prelude::*;
use vstd::std_specs::iter::IteratorSpec;
use vstd::string::*;

verus! {

/// `String::push` appends one character to the end of the string.
pub assume_specification[ String::push ](s: &mut String, c: char)
    ensures
        final(s)@ == old(s)@.push(c),
;

/// `a` begins with `p`.
pub open spec fn begins_with(a: Seq<char>, p: Seq<char>) -> bool {
    p.len() <= a.len() && a.subrange(0, p.len() as int) =~= p
}

/// Dictionary order on character sequences: the order of the first differing
/// character decides, and a proper prefix comes first.
pub open spec fn precedes(a: Seq<char>, b: Seq<char>) -> bool
    decreases b.len(),
{
    if b.len() == 0 {
        false
    } else if a.len() == 0 {
        true
    } else if a[0] != b[0] {
        (a[0] as u32) < (b[0] as u32)
    } else {
        precedes(a.drop_first(), b.drop_first())
    }
}

/// Different characters have different code points.
proof fn char_code_distinct(p: char, q: char)
    requires
        p != q,
    ensures
        (p as u32) != (q as u32),
{
    vstd::utf8::char_is_scalar(p);
    vstd::utf8::char_is_scalar(q);
    assert((p as u32) as int == p as int);
}

/// Nothing precedes itself.
pub proof fn precedes_irreflexive(a: Seq<char>)
    ensures
        !precedes(a, a),
    decreases a.len(),
{
    if a.len() > 0 {
        precedes_irreflexive(a.drop_first());
    }
}

/// `precedes` is transitive.
pub proof fn precedes_transitive(a: Seq<char>, b: Seq<char>, c: Seq<char>)
    requires
        precedes(a, b),
        precedes(b, c),
    ensures
        precedes(a, c),
    decreases a.len(),
{
    if a.len() > 0 && a[0] == b[0] && b[0] == c[0] {
        precedes_transitive(a.drop_first(), b.drop_first(), c.drop_first());
    }
}

/// Two different sequences are ordered one way or the other.
pub proof fn precedes_total(a: Seq<char>, b: Seq<char>)
    ensures
        a == b || precedes(a, b) || precedes(b, a),
    decreases a.len(),
{
    if a.len() == 0 {
        if b.len() == 0 {
            assert(a =~= b);
        }
    } else if b.len() > 0 {
        if a[0] == b[0] {
            precedes_total(a.drop_first(), b.drop_first());
            if a.drop_first() == b.drop_first() {
                assert(a =~= seq![a[0]] + a.drop_first());
                assert(b =~= seq![b[0]] + b.drop_first());
            }
        } else {
            char_code_distinct(a[0], b[0]);
        }
    }
}

/// How two strings compare.
#[derive(Clone, Copy, PartialEq, Eq, Structural, Debug)]
pub enum Side {
    Before,
    Same,
    After,
}

/// The characters of `s`.
pub fn chars_of(s: &str) -> (r: Vec<char>)
    ensures
        r@ == s@,
{
    let mut out: Vec<char> = Vec::new();
    let mut it = s.chars();
    let ghost total = s@;
    loop
        invariant
            out@ + it.remaining() == total,
            it.obeys_prophetic_iter_laws(),
            it.decrease() is Some,
        ensures
            out@ == total,
        decreases it.decrease()->0,
    {
        let ghost before = it.remaining();
        match it.next() {
            Some(c) => {
                out.push(c);
                proof {
                    assert(out@ + it.remaining() =~= total);
                }
            },
            None => {
                proof {
                    assert(out@ =~= total);
                }
                break;
            },
        }
    }
    out
}

/// Whether two strings hold the same characters.
pub fn same(a: &str, b: &str) -> (r: bool)
    ensures
        r == (a@ == b@),
{
    match compare(a, b) {
        Side::Same => true,
        _ => {
            proof {
                precedes_irreflexive(a@);
            }
            false
        },
    }
}

/// Orders two strings by dictionary order.
pub fn compare(a: &str, b: &str) -> (r: Side)
    ensures
        r == Side::Before <==> precedes(a@, b@),
        r == Side::Same <==> a@ == b@,
        r == Side::After <==> precedes(b@, a@),
{
    let mut x = a.chars();
    let mut y = b.chars();
    proof {
        precedes_irreflexive(a@);
        if precedes(a@, b@) && precedes(b@, a@) {
            precedes_transitive(a@, b@, a@);
        }
    }
    loop
        invariant
            x.obeys_prophetic_iter_laws(),
            x.decrease() is Some,
            y.obeys_prophetic_iter_laws(),
            y.decrease() is Some,
            precedes(a@, b@) <==> precedes(x.remaining(), y.remaining()),
            precedes(b@, a@) <==> precedes(y.remaining(), x.remaining()),
            a@ == b@ <==> x.remaining() == y.remaining(),
            !(precedes(a@, b@) && precedes(b@, a@)),
            precedes(a@, b@) ==> a@ != b@,
            precedes(b@, a@) ==> a@ != b@,
        decreases x.decrease()->0,
    {
        let ghost xs = x.remaining();
        let ghost ys = y.remaining();
        let c = x.next();
        let d = y.next();
        match c {
            None => {
                match d {
                    None => {
                        proof {
                            assert(xs =~= ys);
                        }
                        return Side::Same;
                    },
                    Some(_) => {
                        return Side::Before;
                    },
                }
            },
            Some(p) => {
                match d {
                    None => {
                        return Side::After;
                    },
                    Some(q) => {
                        if p != q {
                            proof {
                                char_code_distinct(p, q);
                            }
                            if (p as u32) < (q as u32) {
                                return Side::Before;
                            }
                            return Side::After;
                        }
                        proof {
                            assert(xs =~= seq![p] + x.remaining());
                            assert(ys =~= seq![q] + y.remaining());
                        }
                    },
                }
            },
        }
    }
}

/// Whether `s` begins with `prefix`.
pub fn starts_with(s: &str, prefix: &str) -> (r: bool)
    ensures
        r == begins_with(s@, prefix@),
{
    let x: Vec<char> = chars_of(s);
    let y: Vec<char> = chars_of(prefix);
    if y.len() > x.len() {
        return false;
    }
    let mut i: usize = 0;
    while i < y.len()
        invariant
            i <= y.len() <= x.len(),
            x@ == s@,
            y@ == prefix@,
            forall|k: int| 0 <= k < i ==> x@[k] == y@[k],
        decreases y.len() - i,
    {
        if x[i] != y[i] {
            proof {
                assert(s@.subrange(0, prefix@.len() as int)[i as int] == x@[i as int]);
            }
            return false;
        }
        i += 1;
    }
    true
}

/// A character with an ASCII capital letter made small.
pub open spec fn small(c: char) -> char {
    if 'A' <= c && c <= 'Z' {
        ((c as u32 + 32) as u32) as char
    } else {
        c
    }
}

/// Two texts are the same but for the case of ASCII letters.
pub open spec fn alike(a: Seq<char>, b: Seq<char>) -> bool {
    a.len() == b.len() && forall|i: int| 0 <= i < a.len() ==> small(#[trigger] a[i]) == small(b[i])
}

fn small_of(c: char) -> (r: char)
    ensures
        r == small(c),
{
    match c {
        'A' => 'a',
        'B' => 'b',
        'C' => 'c',
        'D' => 'd',
        'E' => 'e',
        'F' => 'f',
        'G' => 'g',
        'H' => 'h',
        'I' => 'i',
        'J' => 'j',
        'K' => 'k',
        'L' => 'l',
        'M' => 'm',
        'N' => 'n',
        'O' => 'o',
        'P' => 'p',
        'Q' => 'q',
        'R' => 'r',
        'S' => 's',
        'T' => 't',
        'U' => 'u',
        'V' => 'v',
        'W' => 'w',
        'X' => 'x',
        'Y' => 'y',
        'Z' => 'z',
        _ => c,
    }
}

/// Whether two strings are the same but for the case of ASCII letters.
pub fn same_ignoring_case(a: &str, b: &str) -> (r: bool)
    ensures
        r == alike(a@, b@),
{
    let x: Vec<char> = chars_of(a);
    let y: Vec<char> = chars_of(b);
    if x.len() != y.len() {
        return false;
    }
    let mut i: usize = 0;
    while i < x.len()
        invariant
            i <= x.len() == y.len(),
            x@ == a@,
            y@ == b@,
            forall|k: int| 0 <= k < i ==> small(#[trigger] x@[k]) == small(y@[k]),
        decreases x.len() - i,
    {
        if small_of(x[i]) != small_of(y[i]) {
            return false;
        }
        i += 1;
    }
    true
}

/// The concatenation of two strings.
pub fn join2(a: &str, b: &str) -> (r: String)
    ensures
        r@ == a@ + b@,
{
    a.to_owned().concat(b)
}

/// The concatenation of three strings.
pub fn join3(a: &str, b: &str, c: &str) -> (r: String)
    ensures
        r@ == a@ + b@ + c@,
{
    a.to_owned().concat(b).concat(c)
}

/// The concatenation of five strings.
pub fn join5(a: &str, b: &str, c: &str, d: &str, e: &str) -> (r: String)
    ensures
        r@ == a@ + b@ + c@ + d@ + e@,
{
    a.to_owned().concat(b).concat(c).concat(d).concat(e)
}

/// The four bits that stand for an address signal in telephony BCD: a decimal
/// digit, `*`, `#`, or one of the letters `a` to `c`, small or capital.
pub open spec fn signal(c: char) -> Option<u8> {
    if '0' <= c <= '9' {
        Some((c as int - '0' as int) as u8)
    } else if c == '*' {
        Some(10)
    } else if c == '#' {
        Some(11)
    } else if c == 'a' || c == 'A' {
        Some(12)
    } else if c == 'b' || c == 'B' {
        Some(13)
    } else if c == 'c' || c == 'C' {
        Some(14)
    } else {
        None
    }
}

/// Every character is an address signal.
pub open spec fn are_signals(s: Seq<char>) -> bool {
    forall|i: int| 0 <= i < s.len() ==> signal(#[trigger] s[i]) is Some
}

/// Every character is a decimal digit.
pub open spec fn are_digits(s: Seq<char>) -> bool {
    forall|i: int| 0 <= i < s.len() ==> '0' <= #[trigger] s[i] <= '9'
}

/// Address signals packed two to an octet, the first in the low half. `filler`
/// takes the high half of the last octet of an odd number of them.
pub open spec fn packed(s: Seq<char>, filler: u8) -> Seq<u8> {
    Seq::new(
        (s.len() + 1) / 2,
        |i: int|
            (signal(s[2 * i])->Some_0 + 16 * (if 2 * i + 1 < s.len() {
                signal(s[2 * i + 1])->Some_0
            } else {
                filler
            })) as u8,
    )
}

/// The decimal digit character for `d`.
pub open spec fn digit(d: nat) -> char {
    if d == 0 {
        '0'
    } else if d == 1 {
        '1'
    } else if d == 2 {
        '2'
    } else if d == 3 {
        '3'
    } else if d == 4 {
        '4'
    } else if d == 5 {
        '5'
    } else if d == 6 {
        '6'
    } else if d == 7 {
        '7'
    } else if d == 8 {
        '8'
    } else {
        '9'
    }
}

/// The decimal rendering of a natural number, without leading zeros.
pub open spec fn decimal(n: nat) -> Seq<char>
    decreases n,
{
    if n < 10 {
        seq![digit(n)]
    } else {
        decimal(n / 10).push(digit(n % 10))
    }
}

/// The decimal digit character for `d`.
pub fn digit_of(d: u64) -> (c: char)
    requires
        d < 10,
    ensures
        c == digit(d as nat),
{
    match d {
        0 => '0',
        1 => '1',
        2 => '2',
        3 => '3',
        4 => '4',
        5 => '5',
        6 => '6',
        7 => '7',
        8 => '8',
        _ => '9',
    }
}

/// Renders `n` in decimal.
pub fn decimal_of(n: u64) -> (r: String)
    ensures
        r@ == decimal(n as nat),
    decreases n,
{
    if n < 10 {
        let mut s = String::new();
        s.push(digit_of(n));
        proof {
            assert(s@ =~= seq![digit(n as nat)]);
        }
        s
    } else {
        let mut s = decimal_of(n / 10);
        s.push(digit_of(n % 10));
        s
    }
}

/// The decimal rendering of an integer, with a leading minus sign below zero.
pub open spec fn signed_decimal(n: int) -> Seq<char> {
    if n < 0 {
        "-"@ + decimal((-n) as nat)
    } else {
        decimal(n as nat)
    }
}

/// Renders `n` in decimal, with a leading minus sign below zero.
pub fn signed_decimal_of(n: i64) -> (r: String)
    ensures
        r@ == signed_decimal(n as int),
{
    if n < 0 {
        join2("-", decimal_of((-(n + 1)) as u64 + 1).as_str())
    } else {
        decimal_of(n as u64)
    }
}

} // verus!
